//! Host-platform matching for parsed assets.
//!
//! The host is described once per run by its architecture and OS family.
//! Static allow-lists map each supported host family to the asset tokens it
//! accepts; a host family absent from the lists simply matches nothing —
//! an expected outcome, never an error.

use vstd::prelude::*;

use crate::release::{AssetInfo, AssetInfoView};
use crate::strutil::{lemma_first_dash_is, lemma_split_dash_first, split_dash, str_eq};

verus! {

/// The running host: architecture family and OS family, read once from the
/// environment and read-only for the lifetime of a run.
#[derive(Debug)]
pub struct PlatformDescriptor {
    pub arch: String,
    pub os: String,
}

/// The host's identifying tokens as character sequences.
#[verifier::ext_equal]
pub ghost struct PlatformDescriptorView {
    pub arch: Seq<char>,
    pub os: Seq<char>,
}

impl View for PlatformDescriptor {
    type V = PlatformDescriptorView;

    open spec fn view(&self) -> PlatformDescriptorView {
        PlatformDescriptorView { arch: self.arch@, os: self.os@ }
    }
}

/// The architecture allow-list: a 64-bit x86 host accepts only `x64` assets,
/// a 64-bit ARM host only `arm64` assets; any other host accepts none.
pub open spec fn arch_token_allowed(host_arch: Seq<char>, arch: Seq<char>) -> bool {
    ||| host_arch == "x86_64"@ && arch == "x64"@
    ||| host_arch == "aarch64"@ && arch == "arm64"@
}

/// The OS allow-list, applied to the leading OS token only (trailing
/// qualifiers such as a version suffix are ignored): macOS hosts accept
/// `macos`, Windows hosts accept `windows`; any other host accepts none.
pub open spec fn os_token_allowed(host_os: Seq<char>, os_first: Seq<char>) -> bool {
    ||| host_os == "macos"@ && os_first == "macos"@
    ||| host_os == "windows"@ && os_first == "windows"@
}

/// Whether an asset with metadata `info` is installable on `host`: both the
/// architecture token and the leading OS token must be allowed.
pub open spec fn spec_applies(info: AssetInfoView, host: PlatformDescriptorView) -> bool {
    arch_token_allowed(host.arch, info.arch) && os_token_allowed(
        host.os,
        split_dash(info.os)[0],
    )
}

/// The leading dash-delimited token of `s`.
fn leading_token(s: &str) -> (r: String)
    ensures
        r@ == split_dash(s@)[0],
{
    let n = s.unicode_len();
    let mut i: usize = 0;
    while i < n && s.get_char(i) != '-'
        invariant
            0 <= i <= n,
            n == s@.len(),
            forall|j: int| 0 <= j < i ==> s@[j] != '-',
        decreases n - i,
    {
        i += 1;
    }
    proof {
        lemma_first_dash_is(s@, i as int);
        lemma_split_dash_first(s@);
    }
    String::from_str(s.substring_char(0, i))
}

impl AssetInfo {
    /// Decides [`spec_applies`]: can this asset run on `host`?  Always a
    /// plain `true` or `false`; an unsupported host yields `false`.
    pub fn applies_to_this_machine(&self, host: &PlatformDescriptor) -> (r: bool)
        ensures
            r == spec_applies(self@, host@),
    {
        let arch_ok = (str_eq(host.arch.as_str(), "x86_64") && str_eq(self.arch.as_str(), "x64"))
            || (str_eq(host.arch.as_str(), "aarch64") && str_eq(self.arch.as_str(), "arm64"));
        if !arch_ok {
            return false;
        }
        let os_first = leading_token(self.os.as_str());
        (str_eq(host.os.as_str(), "macos") && str_eq(os_first.as_str(), "macos")) || (str_eq(
            host.os.as_str(),
            "windows",
        ) && str_eq(os_first.as_str(), "windows"))
    }
}

/// A host whose architecture or OS family is absent from the allow-lists
/// matches no asset at all, whatever the asset's metadata says.
pub proof fn lemma_unsupported_host_never_matches(
    info: AssetInfoView,
    host: PlatformDescriptorView,
)
    requires
        (host.arch != "x86_64"@ && host.arch != "aarch64"@) || (host.os != "macos"@ && host.os
            != "windows"@),
    ensures
        !spec_applies(info, host),
{
}

} // verus!
