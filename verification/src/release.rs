//! The release data model and the asset-filename parser.
//!
//! A release feed publishes releases, each carrying downloadable assets.
//! An asset's filename encodes its metadata as dash-separated tokens:
//! `agda-<version>-<arch>-<os tokens...>-ghc<dependency version>[.<ext>]`.
//! Parsing decodes that encoding into an [`AssetInfo`], failing loudly on
//! names that do not fit (checksum files, source tarballs, and the like).

use vstd::prelude::*;

use crate::strutil::{
    join_dash, lemma_join_dash_push, lemma_split_join_dash, split_dash, split_dashes, str_eq,
};

verus! {

/// One published release: a tag and its downloadable assets.
#[derive(Debug)]
pub struct Release {
    pub id: u64,
    pub tag_name: String,
    pub assets: Vec<Asset>,
}

/// One downloadable file attached to a release.  The name is observed once
/// from the feed and never mutated.
#[derive(Debug)]
pub struct Asset {
    pub id: u64,
    pub url: String,
    pub size: u64,
    pub name: String,
    pub browser_download_url: String,
}

/// Metadata decoded from an asset's filename; derived on demand, never stored.
#[derive(Debug)]
pub struct AssetInfo {
    pub arch: String,
    pub version: String,
    pub os: String,
    pub ghc: String,
}

/// Why a filename could not be decoded.
#[derive(Debug, Clone, Copy, PartialEq, Eq, Structural)]
pub enum ParseError {
    /// The leading token is not the product name.
    WrongProduct,
    /// A required token is absent: no version, no architecture, or no token
    /// carrying the dependency prefix.
    Malformed,
}

/// A release as its mathematical content: the tag's characters and the
/// sequence of assets.
#[verifier::ext_equal]
pub ghost struct ReleaseView {
    pub id: u64,
    pub tag_name: Seq<char>,
    pub assets: Seq<Asset>,
}

impl View for Release {
    type V = ReleaseView;

    open spec fn view(&self) -> ReleaseView {
        ReleaseView { id: self.id, tag_name: self.tag_name@, assets: self.assets@ }
    }
}

/// The decoded components of an asset name, as character sequences.
#[verifier::ext_equal]
pub ghost struct AssetInfoView {
    pub version: Seq<char>,
    pub arch: Seq<char>,
    pub os: Seq<char>,
    pub ghc: Seq<char>,
}

impl View for AssetInfo {
    type V = AssetInfoView;

    open spec fn view(&self) -> AssetInfoView {
        AssetInfoView {
            version: self.version@,
            arch: self.arch@,
            os: self.os@,
            ghc: self.ghc@,
        }
    }
}

/// Does the token begin with the toolchain-dependency prefix `ghc`?
pub open spec fn has_dep_prefix(t: Seq<char>) -> bool {
    t.len() >= 3 && t.subrange(0, 3) == "ghc"@
}

/// The first index `>= i` whose token carries the dependency prefix, or
/// `ts.len()` if none does.
pub open spec fn dep_index(ts: Seq<Seq<char>>, i: int) -> int
    decreases ts.len() - i,
{
    if i >= ts.len() {
        ts.len() as int
    } else if has_dep_prefix(ts[i]) {
        i
    } else {
        dep_index(ts, i + 1)
    }
}

pub proof fn lemma_dep_index_is(ts: Seq<Seq<char>>, i0: int, k: int)
    requires
        0 <= i0 <= k <= ts.len(),
        forall|j: int| i0 <= j < k ==> !has_dep_prefix(#[trigger] ts[j]),
        k < ts.len() ==> has_dep_prefix(ts[k]),
    ensures
        dep_index(ts, i0) == k,
    decreases k - i0,
{
    if i0 < k {
        lemma_dep_index_is(ts, i0 + 1, k)
    }
}

/// What parsing an asset name yields: the decoded components, or the reason
/// the name is rejected.  Token 0 must be the product name `agda`; token 1 is
/// the version and token 2 the architecture; the OS tokens run from token 3
/// until the first token carrying the dependency prefix, which, stripped of
/// that prefix, is the dependency version.
pub open spec fn parse_name(name: Seq<char>) -> Result<AssetInfoView, ParseError> {
    let ts = split_dash(name);
    if ts[0] != "agda"@ {
        Err(ParseError::WrongProduct)
    } else if ts.len() < 3 {
        Err(ParseError::Malformed)
    } else {
        let g = dep_index(ts, 3);
        if g >= ts.len() {
            Err(ParseError::Malformed)
        } else {
            Ok(
                AssetInfoView {
                    version: ts[1],
                    arch: ts[2],
                    os: join_dash(ts.subrange(3, g)),
                    ghc: ts[g].subrange(3, ts[g].len() as int),
                },
            )
        }
    }
}

/// Decides whether `t` starts with the dependency prefix `ghc`.
fn check_dep_prefix(t: &str) -> (r: bool)
    ensures
        r == has_dep_prefix(t@),
{
    proof {
        reveal_strlit("ghc");
    }
    let n = t.unicode_len();
    if n < 3 {
        return false;
    }
    let r = t.get_char(0) == 'g' && t.get_char(1) == 'h' && t.get_char(2) == 'c';
    proof {
        if r {
            assert(t@.subrange(0, 3) =~= "ghc"@);
        } else {
            if t@.subrange(0, 3) == "ghc"@ {
                assert(t@[0] == t@.subrange(0, 3)[0]);
                assert(t@[1] == t@.subrange(0, 3)[1]);
                assert(t@[2] == t@.subrange(0, 3)[2]);
            }
        }
    }
    r
}

impl Release {
    /// An exact copy, field for field.
    pub(crate) fn duplicate(&self) -> (r: Release)
        ensures
            r@ == self@,
    {
        let mut assets: Vec<Asset> = Vec::new();
        let mut i: usize = 0;
        while i < self.assets.len()
            invariant
                0 <= i <= self.assets@.len(),
                assets@.len() == i,
                forall|j: int| 0 <= j < i ==> assets@[j] == self.assets@[j],
            decreases self.assets@.len() - i,
        {
            assets.push(self.assets[i].duplicate());
            i += 1;
        }
        proof {
            assert(assets@ =~= self.assets@);
        }
        let r = Release { id: self.id, tag_name: self.tag_name.clone(), assets };
        proof {
            assert(r@ =~= self@);
        }
        r
    }
}

impl Asset {
    /// An exact copy, field for field.
    pub(crate) fn duplicate(&self) -> (r: Asset)
        ensures
            r == *self,
    {
        Asset {
            id: self.id,
            url: self.url.clone(),
            size: self.size,
            name: self.name.clone(),
            browser_download_url: self.browser_download_url.clone(),
        }
    }

    /// Decodes this asset's filename, exactly as [`parse_name`] describes;
    /// a name that does not fit the scheme is reported, never a panic.
    pub fn get_asset_info(&self) -> (r: Result<AssetInfo, ParseError>)
        ensures
            match r {
                Ok(info) => parse_name(self.name@) == Ok::<AssetInfoView, ParseError>(info@),
                Err(e) => parse_name(self.name@) == Err::<AssetInfoView, ParseError>(e),
            },
    {
        let parts = split_dashes(self.name.as_str());
        let ghost ts = split_dash(self.name@);
        proof {
            assert(ts[0] == parts.deep_view()[0]);
        }
        if !str_eq(parts[0].as_str(), "agda") {
            return Err(ParseError::WrongProduct);
        }
        if parts.len() < 3 {
            return Err(ParseError::Malformed);
        }
        let mut g: usize = 3;
        let mut found = false;
        while !found && g < parts.len()
            invariant
                3 <= g <= parts.len(),
                parts.deep_view() == ts,
                parts@.len() == ts.len(),
                forall|j: int| 3 <= j < g ==> !has_dep_prefix(#[trigger] ts[j]),
                found ==> g < parts.len() && has_dep_prefix(ts[g as int]),
            decreases (if found { 0int } else { 1int }) + parts.len() - g,
        {
            if check_dep_prefix(parts[g].as_str()) {
                found = true;
            } else {
                g += 1;
            }
        }
        proof {
            lemma_dep_index_is(ts, 3, g as int);
        }
        if !found {
            return Err(ParseError::Malformed);
        }
        let mut os = String::new();
        let mut j: usize = 3;
        proof {
            assert(ts.subrange(3, 3) =~= Seq::<Seq<char>>::empty());
        }
        while j < g
            invariant
                3 <= j <= g < parts.len(),
                parts.deep_view() == ts,
                parts@.len() == ts.len(),
                os@ == join_dash(ts.subrange(3, j as int)),
            decreases g - j,
        {
            let ghost before = ts.subrange(3, j as int);
            if j > 3 {
                os.append("-");
                proof {
                    reveal_strlit("-");
                    assert("-"@ =~= seq!['-']);
                    lemma_join_dash_push(before, ts[j as int]);
                }
            }
            os.append(parts[j].as_str());
            proof {
                assert(ts.subrange(3, j + 1) =~= before.push(ts[j as int]));
                if j == 3 {
                    assert(join_dash(seq![ts[3]]) == ts[3]);
                    assert(before.push(ts[3]) =~= seq![ts[3]]);
                }
            }
            j += 1;
        }
        let dep_token = parts[g].as_str();
        let ghc = String::from_str(dep_token.substring_char(3, dep_token.unicode_len()));
        let info = AssetInfo { arch: parts[2].clone(), version: parts[1].clone(), os, ghc };
        proof {
            assert(info@ =~= parse_name(self.name@)->Ok_0);
        }
        Ok(info)
    }
}

/// Any name whose first token is not the product name is rejected as
/// [`ParseError::WrongProduct`] — never a panic, never a default value.
pub proof fn lemma_wrong_product_rejected(name: Seq<char>)
    requires
        split_dash(name)[0] != "agda"@,
    ensures
        parse_name(name) == Err::<AssetInfoView, ParseError>(ParseError::WrongProduct),
{
}

/// Round trip: a well-formed name assembled from component tokens parses back
/// to exactly those components — the version, architecture, joined OS tokens,
/// and dependency version are all recovered.
pub proof fn lemma_parse_round_trip(
    version: Seq<char>,
    arch: Seq<char>,
    oss: Seq<Seq<char>>,
    dep: Seq<char>,
)
    requires
        forall|j: int| 0 <= j < version.len() ==> version[j] != '-',
        forall|j: int| 0 <= j < arch.len() ==> arch[j] != '-',
        forall|i: int, j: int|
            0 <= i < oss.len() && 0 <= j < oss[i].len() ==> #[trigger] oss[i][j] != '-',
        forall|i: int| 0 <= i < oss.len() ==> !has_dep_prefix(#[trigger] oss[i]),
        forall|j: int| 0 <= j < dep.len() ==> dep[j] != '-',
    ensures
        ({
            let name = join_dash(seq!["agda"@, version, arch] + oss + seq!["ghc"@ + dep]);
            parse_name(name) == Ok::<AssetInfoView, ParseError>(
                AssetInfoView { version, arch, os: join_dash(oss), ghc: dep },
            )
        }),
{
    reveal_strlit("agda");
    reveal_strlit("ghc");
    let gt = "ghc"@ + dep;
    let ts = seq!["agda"@, version, arch] + oss + seq![gt];
    let name = join_dash(ts);
    assert(ts.len() == 4 + oss.len());
    assert forall|i: int, j: int|
        0 <= i < ts.len() && 0 <= j < ts[i].len() implies #[trigger] ts[i][j] != '-' by {
        if i == 0 {
            assert(ts[i] == "agda"@);
        } else if i == 1 {
            assert(ts[i] == version);
        } else if i == 2 {
            assert(ts[i] == arch);
        } else if i < 3 + oss.len() {
            assert(ts[i] == oss[i - 3]);
        } else {
            assert(ts[i] == gt);
            if j < 3 {
                assert(gt[j] == "ghc"@[j]);
            } else {
                assert(gt[j] == dep[j - 3]);
            }
        }
    }
    lemma_split_join_dash(ts);
    assert(ts[0] == "agda"@);
    assert forall|j: int| 3 <= j < 3 + oss.len() implies !has_dep_prefix(#[trigger] ts[j]) by {
        assert(ts[j] == oss[j - 3]);
    }
    assert(gt.subrange(0, 3) =~= "ghc"@);
    assert(has_dep_prefix(ts[3 + oss.len() as int]));
    lemma_dep_index_is(ts, 3, 3 + oss.len() as int);
    assert(ts.subrange(3, 3 + oss.len() as int) =~= oss);
    assert(gt.subrange(3, gt.len() as int) =~= dep);
    assert(parse_name(name)->Ok_0 =~= AssetInfoView {
        version,
        arch,
        os: join_dash(oss),
        ghc: dep,
    });
}

} // verus!
