//! Utilities for topics and topic filters.
use vstd::prelude::*;
use vstd::string::StringSliceAdditionalSpecFns;

use crate::encoding::topic::{has_valid_wildcard_bytes, spec_has_valid_wildcard};

verus! {

/// Checks that every wildcard of a topic filter stands alone in its level, and that `#` is
/// the last character.
pub fn has_valid_wildcard(topic: &str) -> (r: bool)
    ensures
        r == spec_has_valid_wildcard(topic.spec_bytes()),
{
    has_valid_wildcard_bytes(topic.as_bytes())
}

} // verus!
