//! Ceremony-wide switches shared by every component.

use vstd::prelude::*;
use vstd::std_specs::convert::FromSpecImpl;
use crate::config::CompressionSetting;

verus! {

/// Whether group elements are stored in their compressed encoding.
#[derive(Clone, Copy, Debug, PartialEq, Eq, Structural)]
pub enum UseCompression {
    Yes,
    No,
}

/// Whether decoded points are checked for subgroup membership.
#[derive(Clone, Copy, Debug, PartialEq, Eq, Structural)]
pub enum CheckForCorrectness {
    Yes,
    No,
}

impl From<CompressionSetting> for UseCompression {
    fn from(setting: CompressionSetting) -> (r: Self) {
        match setting {
            CompressionSetting::Yes => UseCompression::Yes,
            CompressionSetting::No => UseCompression::No,
        }
    }
}

impl FromSpecImpl<CompressionSetting> for UseCompression {
    open spec fn obeys_from_spec() -> bool {
        true
    }

    open spec fn from_spec(setting: CompressionSetting) -> Self {
        match setting {
            CompressionSetting::Yes => UseCompression::Yes,
            CompressionSetting::No => UseCompression::No,
        }
    }
}

impl From<bool> for CheckForCorrectness {
    fn from(check: bool) -> (r: Self) {
        match check {
            true => CheckForCorrectness::Yes,
            false => CheckForCorrectness::No,
        }
    }
}

impl FromSpecImpl<bool> for CheckForCorrectness {
    open spec fn obeys_from_spec() -> bool {
        true
    }

    open spec fn from_spec(check: bool) -> Self {
        if check {
            CheckForCorrectness::Yes
        } else {
            CheckForCorrectness::No
        }
    }
}

} // verus!
