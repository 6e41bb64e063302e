//! The update checker's comparison and asset-selection rules: version
//! normalization, the release-asset matchers and the download-proxy
//! prefix.  Everything here is pure; fetching releases is the caller's
//! business.

use vstd::prelude::*;
use vstd::string::StrSliceExecFns;
use vstd::string::StringSliceAdditionalSpecFns;
use vstd::string::StringExecFns;
use crate::bytestr::bytes_eq;
use crate::bytestr::contains_sub;
use crate::bytestr::copy_bytes;
use crate::bytestr::copy_range;
use crate::bytestr::ends_with;
use crate::bytestr::find_byte;
use crate::bytestr::lemma_find_bounds;
use crate::bytestr::lower_bytes;
use crate::bytestr::spec_contains_sub;
use crate::bytestr::spec_ends_with;
use crate::bytestr::spec_find;
use crate::bytestr::spec_lower;
use crate::bytestr::spec_starts_with;
use crate::bytestr::spec_trim;
use crate::bytestr::starts_with;
use crate::bytestr::trim_bytes;

verus! {

/// One release asset: its file name, download URL, size and content
/// type.
pub struct GhAsset {
    pub name: Vec<u8>,
    pub browser_download_url: Vec<u8>,
    pub size: Option<u64>,
    pub content_type: Option<Vec<u8>>,
}

/// `s` with every leading `v` removed.
pub open spec fn spec_strip_v(s: Seq<u8>) -> Seq<u8>
    decreases s.len(),
{
    if s.len() > 0 && s[0] == 0x76 {
        spec_strip_v(s.drop_first())
    } else {
        s
    }
}

proof fn lemma_strip_v_at(s: Seq<u8>, i: int)
    requires
        0 <= i <= s.len(),
        forall|j: int| 0 <= j < i ==> s[j] == 0x76,
        i < s.len() ==> s[i] != 0x76,
    ensures
        spec_strip_v(s) == s.skip(i),
    decreases i,
{
    if i == 0 {
        assert(s.skip(0) =~= s);
    } else {
        assert(s.drop_first() =~= s.skip(1));
        lemma_strip_v_at(s.skip(1), i - 1);
        assert(s.skip(1).skip(i - 1) =~= s.skip(i));
    }
}

/// All bytes are decimal digits.
pub open spec fn spec_all_digits(s: Seq<u8>) -> bool {
    forall|i: int| 0 <= i < s.len() ==> 0x30 <= #[trigger] s[i] <= 0x39
}

/// The value of a digit string, most significant first.
pub open spec fn spec_digits_val(s: Seq<u8>) -> int
    decreases s.len(),
{
    if s.len() == 0 {
        0
    } else {
        spec_digits_val(s.drop_last()) * 10 + (s.last() - 0x30)
    }
}

/// What parsing a (signed) decimal string as an `i64` yields, with
/// anything unparsable or out of range collapsing to 0.
pub open spec fn spec_parse_i64(s: Seq<u8>) -> i64 {
    let neg = s.len() > 0 && s[0] == 0x2d;
    let d = if s.len() > 0 && (s[0] == 0x2d || s[0] == 0x2b) {
        s.drop_first()
    } else {
        s
    };
    if d.len() == 0 || !spec_all_digits(d) {
        0
    } else {
        let v = if neg {
            -spec_digits_val(d)
        } else {
            spec_digits_val(d)
        };
        if i64::MIN <= v <= i64::MAX {
            v as i64
        } else {
            0
        }
    }
}

/// Parses a decimal string as `str::parse::<i64>` followed by
/// `unwrap_or(0)` does: an optional sign, then digits; empty, malformed
/// or out-of-range input yields 0.
pub fn parse_i64_dec(s: &[u8]) -> (r: i64)
    ensures
        r == spec_parse_i64(s@),
{
    let mut neg: bool = false;
    let mut start: usize = 0;
    if s.len() > 0 && s[0] == 0x2d {
        neg = true;
        start = 1;
    } else if s.len() > 0 && s[0] == 0x2b {
        start = 1;
    }
    let ghost d = s@.skip(start as int);
    proof {
        if start == 0 {
            assert(d =~= s@);
        } else {
            assert(d =~= s@.drop_first());
        }
    }
    if start == s.len() {
        return 0;
    }
    let mut acc: u128 = 0;
    let mut over: bool = false;
    for i in start..s.len()
        invariant
            start <= i <= s@.len(),
            start <= 1,
            neg == (s@.len() > 0 && s@[0] == 0x2d),
            (start == 1) == (s@.len() > 0 && (s@[0] == 0x2d || s@[0] == 0x2b)),
            d == s@.skip(start as int),
            d == (if s@.len() > 0 && (s@[0] == 0x2d || s@[0] == 0x2b) {
                s@.drop_first()
            } else {
                s@
            }),
            d.len() == s@.len() - start,
            d.len() > 0,
            spec_all_digits(d.take(i - start)),
            !over ==> acc == spec_digits_val(d.take(i - start)) && acc
                <= 9223372036854775808u128,
            over ==> spec_digits_val(d.take(i - start)) > 9223372036854775808,
    {
        let c = s[i];
        if c < 0x30 || c > 0x39 {
            proof {
                assert(d[i - start] == s@[i as int]);
                assert(!spec_all_digits(d));
            }
            return 0;
        }
        proof {
            let k = i - start;
            assert(d.take(k + 1).drop_last() =~= d.take(k as int));
            assert(d.take(k + 1).last() == d[k as int]);
            assert(d[k as int] == s@[i as int]);
        }
        let dv = (c - 0x30) as u128;
        if !over {
            let newacc = acc * 10 + dv;
            if newacc > 9223372036854775808u128 {
                over = true;
            } else {
                acc = newacc;
            }
        } else {
            proof {
                let k = i - start;
                assert(spec_digits_val(d.take(k + 1)) == spec_digits_val(d.take(k as int)) * 10 + (
                s@[i as int] - 0x30));
            }
        }
    }
    proof {
        assert(d.take(s@.len() - start) =~= d);
    }
    if over {
        return 0;
    }
    if neg {
        if acc == 9223372036854775808u128 {
            i64::MIN
        } else {
            proof {
                assert(acc < 9223372036854775808u128);
            }
            -(acc as i64)
        }
    } else {
        if acc >= 9223372036854775808u128 {
            0
        } else {
            acc as i64
        }
    }
}

/// The normal form of a version string: `major.minor.patch` plus a
/// suffix weight where a `fix` suffix outranks no suffix, which
/// outranks any other (pre-release) suffix.
pub open spec fn spec_norm_ver(b: Seq<u8>) -> (i64, i64, i64, i64) {
    let t2 = spec_strip_v(spec_trim(b));
    let dash = spec_find(t2, 0x2d);
    let core = t2.subrange(0, dash);
    let suffix = if dash < t2.len() {
        t2.subrange(dash + 1, t2.len() as int)
    } else {
        Seq::<u8>::empty()
    };
    let sl = spec_lower(suffix);
    let weight: i64 = if spec_starts_with(sl, "fix".spec_bytes()) {
        2
    } else if sl.len() == 0 {
        1
    } else {
        0
    };
    let d0 = spec_find(core, 0x2e);
    let n0 = spec_parse_i64(core.subrange(0, d0));
    if d0 < core.len() {
        let r1 = core.subrange(d0 + 1, core.len() as int);
        let d1 = spec_find(r1, 0x2e);
        let n1 = spec_parse_i64(r1.subrange(0, d1));
        if d1 < r1.len() {
            let r2 = r1.subrange(d1 + 1, r1.len() as int);
            let n2 = spec_parse_i64(r2.subrange(0, spec_find(r2, 0x2e)));
            (n0, n1, n2, weight)
        } else {
            (n0, n1, 0, weight)
        }
    } else {
        (n0, 0, 0, weight)
    }
}

/// Normalizes a version string: trims it, strips leading `v`s, splits
/// the suffix at the first `-`, takes the first three dot-separated
/// numbers, and weighs the suffix (`fix` > none > pre-release).
pub fn norm_ver(v: &str) -> (r: (i64, i64, i64, i64))
    ensures
        r == spec_norm_ver(v.spec_bytes()),
{
    let b = v.as_bytes();
    let t = trim_bytes(b);
    let mut i: usize = 0;
    while i < t.len() && t[i] == 0x76
        invariant
            i <= t@.len(),
            forall|j: int| 0 <= j < i ==> t@[j] == 0x76,
        decreases t@.len() - i,
    {
        i = i + 1;
    }
    let t2 = copy_range(t.as_slice(), i, t.len());
    proof {
        lemma_strip_v_at(t@, i as int);
        assert(t@.skip(i as int) =~= t@.subrange(i as int, t@.len() as int));
        assert(t2@ == spec_strip_v(spec_trim(b@)));
    }
    let dash = find_byte(t2.as_slice(), 0x2d);
    proof {
        lemma_find_bounds(t2@, 0x2d);
    }
    let core = copy_range(t2.as_slice(), 0, dash);
    let suffix: Vec<u8> = if dash < t2.len() {
        copy_range(t2.as_slice(), dash + 1, t2.len())
    } else {
        Vec::new()
    };
    let sl = lower_bytes(suffix.as_slice());
    let fix_lit = "fix".as_bytes_vec();
    let weight: i64 = if starts_with(sl.as_slice(), fix_lit.as_slice()) {
        2
    } else if sl.len() == 0 {
        1
    } else {
        0
    };
    let d0 = find_byte(core.as_slice(), 0x2e);
    proof {
        lemma_find_bounds(core@, 0x2e);
    }
    let c0 = copy_range(core.as_slice(), 0, d0);
    let n0 = parse_i64_dec(c0.as_slice());
    if d0 < core.len() {
        let r1 = copy_range(core.as_slice(), d0 + 1, core.len());
        let d1 = find_byte(r1.as_slice(), 0x2e);
        proof {
            lemma_find_bounds(r1@, 0x2e);
        }
        let c1 = copy_range(r1.as_slice(), 0, d1);
        let n1 = parse_i64_dec(c1.as_slice());
        if d1 < r1.len() {
            let r2 = copy_range(r1.as_slice(), d1 + 1, r1.len());
            let d2 = find_byte(r2.as_slice(), 0x2e);
            proof {
                lemma_find_bounds(r2@, 0x2e);
            }
            let c2 = copy_range(r2.as_slice(), 0, d2);
            let n2 = parse_i64_dec(c2.as_slice());
            (n0, n1, n2, weight)
        } else {
            (n0, n1, 0i64, weight)
        }
    } else {
        (n0, 0i64, 0i64, weight)
    }
}

/// Whether normalized version `a` is strictly newer than `b`:
/// lexicographic on major, minor, patch, then suffix weight.
pub fn is_better(a: &(i64, i64, i64, i64), b: &(i64, i64, i64, i64)) -> (r: bool)
    ensures
        r == (a.0 > b.0 || (a.0 == b.0 && (a.1 > b.1 || (a.1 == b.1 && (a.2 > b.2 || (a.2 == b.2
            && a.3 > b.3)))))),
{
    a.0 > b.0 || (a.0 == b.0 && (a.1 > b.1 || (a.1 == b.1 && (a.2 > b.2 || (a.2 == b.2 && a.3
        > b.3)))))
}

/// A download URL behind the proxy prefix, unless it already carries
/// it.
pub open spec fn spec_gh_proxy(s: Seq<char>) -> Seq<char> {
    let p = "https://gh-proxy.com/"@;
    if s.len() >= p.len() && s.subrange(0, p.len() as int) == p {
        s
    } else {
        p + s
    }
}

/// Prefixes a download URL with the proxy, unless it already starts
/// with it.
pub fn gh_proxy_url(raw: &str) -> (r: String)
    ensures
        r@ == spec_gh_proxy(raw@),
{
    let prefix: &str = "https://gh-proxy.com/";
    let n = prefix.unicode_len();
    let rn = raw.unicode_len();
    let mut matched: bool = rn >= n;
    if matched {
        for i in 0..n
            invariant
                n == prefix@.len(),
                n <= raw@.len(),
                matched == (raw@.subrange(0, i as int) =~= prefix@.subrange(0, i as int)),
        {
            let a = raw.get_char(i);
            let b = prefix.get_char(i);
            proof {
                if matched && a == b {
                    assert(raw@.subrange(0, i + 1) =~= prefix@.subrange(0, i + 1));
                } else {
                    if raw@.subrange(0, i + 1) =~= prefix@.subrange(0, i + 1) {
                        assert(raw@.subrange(0, i + 1).subrange(0, i as int) =~= raw@.subrange(
                            0,
                            i as int,
                        ));
                        assert(prefix@.subrange(0, i + 1).subrange(0, i as int) =~= prefix@
                            .subrange(0, i as int));
                        assert(raw@.subrange(0, i + 1)[i as int] == a);
                        assert(prefix@.subrange(0, i + 1)[i as int] == b);
                    }
                }
            }
            if a != b {
                matched = false;
            }
        }
        proof {
            assert(prefix@.subrange(0, prefix@.len() as int) =~= prefix@);
        }
    }
    if matched {
        raw.to_owned()
    } else {
        String::from_str(prefix).concat(raw)
    }
}

/// The operating-system tag of an update target: a known platform name
/// stands, anything else is `other`.
pub open spec fn spec_os_tag(os: Seq<u8>) -> Seq<u8> {
    if os == "windows".spec_bytes() || os == "linux".spec_bytes() || os == "macos".spec_bytes() {
        os
    } else {
        "other".spec_bytes()
    }
}

/// The processor tag of an update target: a known architecture name
/// stands, anything else is `other`.
pub open spec fn spec_arch_tag(arch: Seq<u8>) -> Seq<u8> {
    if arch == "x86_64".spec_bytes() || arch == "aarch64".spec_bytes() || arch
        == "x86".spec_bytes() {
        arch
    } else {
        "other".spec_bytes()
    }
}

/// Classifies a platform and architecture name pair into the tags the
/// asset matchers work with.
pub fn os_arch_tag(os: &[u8], arch: &[u8]) -> (r: (Vec<u8>, Vec<u8>))
    ensures
        r.0@ == spec_os_tag(os@),
        r.1@ == spec_arch_tag(arch@),
{
    let windows_lit = "windows".as_bytes_vec();
    let linux_lit = "linux".as_bytes_vec();
    let macos_lit = "macos".as_bytes_vec();
    let os_tag: Vec<u8> = if bytes_eq(os, windows_lit.as_slice()) || bytes_eq(
        os,
        linux_lit.as_slice(),
    ) || bytes_eq(os, macos_lit.as_slice()) {
        copy_bytes(os)
    } else {
        "other".as_bytes_vec()
    };
    let x86_64_lit = "x86_64".as_bytes_vec();
    let aarch64_lit = "aarch64".as_bytes_vec();
    let x86_lit = "x86".as_bytes_vec();
    let arch_tag: Vec<u8> = if bytes_eq(arch, x86_64_lit.as_slice()) || bytes_eq(
        arch,
        aarch64_lit.as_slice(),
    ) || bytes_eq(arch, x86_lit.as_slice()) {
        copy_bytes(arch)
    } else {
        "other".as_bytes_vec()
    };
    (os_tag, arch_tag)
}

/// The lowercased name belongs to an ARM build.
pub open spec fn spec_is_arm(n: Seq<u8>) -> bool {
    spec_contains_sub(n, "arm64".spec_bytes()) || spec_contains_sub(n, "aarch64".spec_bytes())
        || spec_contains_sub(n, "armv7".spec_bytes())
}

/// The asset name matches the x86-64 AppImage build.
pub open spec fn spec_appimage_match(name: Seq<u8>) -> bool {
    let n = spec_lower(name);
    !spec_is_arm(n) && spec_ends_with(n, ".appimage".spec_bytes()) && (spec_contains_sub(
        n,
        "x86_64".spec_bytes(),
    ) || spec_contains_sub(n, "amd64".spec_bytes()))
}

/// The asset name matches the x86-64 Debian package.
pub open spec fn spec_deb_match(name: Seq<u8>) -> bool {
    let n = spec_lower(name);
    !spec_is_arm(n) && spec_ends_with(n, ".deb".spec_bytes()) && (spec_contains_sub(
        n,
        "x86_64".spec_bytes(),
    ) || spec_contains_sub(n, "amd64".spec_bytes()))
}

/// The asset name matches the x86-64 Windows installer.
pub open spec fn spec_windows_match(name: Seq<u8>) -> bool {
    let n = spec_lower(name);
    !spec_is_arm(n) && (spec_ends_with(n, ".exe".spec_bytes()) || spec_ends_with(
        n,
        ".msi".spec_bytes(),
    )) && (spec_contains_sub(n, "x64".spec_bytes()) || spec_contains_sub(
        n,
        "x86_64".spec_bytes(),
    ) || spec_contains_sub(n, "amd64".spec_bytes()))
}

fn is_arm_name(n: &[u8]) -> (r: bool)
    ensures
        r == spec_is_arm(n@),
{
    let arm64_lit = "arm64".as_bytes_vec();
    let aarch64_lit = "aarch64".as_bytes_vec();
    let armv7_lit = "armv7".as_bytes_vec();
    contains_sub(n, arm64_lit.as_slice()) || contains_sub(n, aarch64_lit.as_slice())
        || contains_sub(n, armv7_lit.as_slice())
}

fn appimage_match(name: &[u8]) -> (r: bool)
    ensures
        r == spec_appimage_match(name@),
{
    let n = lower_bytes(name);
    let appimage_lit = ".appimage".as_bytes_vec();
    let x86_64_lit = "x86_64".as_bytes_vec();
    let amd64_lit = "amd64".as_bytes_vec();
    !is_arm_name(n.as_slice()) && ends_with(n.as_slice(), appimage_lit.as_slice()) && (
    contains_sub(n.as_slice(), x86_64_lit.as_slice()) || contains_sub(
        n.as_slice(),
        amd64_lit.as_slice(),
    ))
}

fn deb_match(name: &[u8]) -> (r: bool)
    ensures
        r == spec_deb_match(name@),
{
    let n = lower_bytes(name);
    let deb_lit = ".deb".as_bytes_vec();
    let x86_64_lit = "x86_64".as_bytes_vec();
    let amd64_lit = "amd64".as_bytes_vec();
    !is_arm_name(n.as_slice()) && ends_with(n.as_slice(), deb_lit.as_slice()) && (contains_sub(
        n.as_slice(),
        x86_64_lit.as_slice(),
    ) || contains_sub(n.as_slice(), amd64_lit.as_slice()))
}

fn windows_match(name: &[u8]) -> (r: bool)
    ensures
        r == spec_windows_match(name@),
{
    let n = lower_bytes(name);
    let exe_lit = ".exe".as_bytes_vec();
    let msi_lit = ".msi".as_bytes_vec();
    let x64_lit = "x64".as_bytes_vec();
    let x86_64_lit = "x86_64".as_bytes_vec();
    let amd64_lit = "amd64".as_bytes_vec();
    !is_arm_name(n.as_slice()) && (ends_with(n.as_slice(), exe_lit.as_slice()) || ends_with(
        n.as_slice(),
        msi_lit.as_slice(),
    )) && (contains_sub(n.as_slice(), x64_lit.as_slice()) || contains_sub(
        n.as_slice(),
        x86_64_lit.as_slice(),
    ) || contains_sub(n.as_slice(), amd64_lit.as_slice()))
}

/// Picks the first AppImage and the first Debian asset for x86-64
/// Linux, by index.
pub fn match_linux_assets(assets: &[GhAsset]) -> (r: (Option<usize>, Option<usize>))
    ensures
        r.0 matches Some(i) ==> i < assets@.len() && spec_appimage_match(assets@[i as int].name@)
            && (forall|j: int| 0 <= j < i ==> !spec_appimage_match(assets@[j].name@)),
        r.0 is None ==> (forall|j: int|
            0 <= j < assets@.len() ==> !spec_appimage_match(assets@[j].name@)),
        r.1 matches Some(i) ==> i < assets@.len() && spec_deb_match(assets@[i as int].name@) && (
        forall|j: int| 0 <= j < i ==> !spec_deb_match(assets@[j].name@)),
        r.1 is None ==> (forall|j: int|
            0 <= j < assets@.len() ==> !spec_deb_match(assets@[j].name@)),
{
    let mut appimage: Option<usize> = None;
    let mut deb: Option<usize> = None;
    for i in 0..assets.len()
        invariant
            appimage matches Some(k) ==> k < i && spec_appimage_match(assets@[k as int].name@) && (
            forall|j: int| 0 <= j < k ==> !spec_appimage_match(assets@[j].name@)),
            appimage is None ==> (forall|j: int|
                0 <= j < i ==> !spec_appimage_match(assets@[j].name@)),
            deb matches Some(k) ==> k < i && spec_deb_match(assets@[k as int].name@) && (forall|
                j: int,
            | 0 <= j < k ==> !spec_deb_match(assets@[j].name@)),
            deb is None ==> (forall|j: int| 0 <= j < i ==> !spec_deb_match(assets@[j].name@)),
    {
        if appimage.is_none() && appimage_match(assets[i].name.as_slice()) {
            appimage = Some(i);
        }
        if deb.is_none() && deb_match(assets[i].name.as_slice()) {
            deb = Some(i);
        }
    }
    (appimage, deb)
}

/// Picks the first Windows installer asset for x86-64, by index.
pub fn match_windows_asset(assets: &[GhAsset]) -> (r: Option<usize>)
    ensures
        r matches Some(i) ==> i < assets@.len() && spec_windows_match(assets@[i as int].name@) && (
        forall|j: int| 0 <= j < i ==> !spec_windows_match(assets@[j].name@)),
        r is None ==> (forall|j: int|
            0 <= j < assets@.len() ==> !spec_windows_match(assets@[j].name@)),
{
    for i in 0..assets.len()
        invariant
            forall|j: int| 0 <= j < i ==> !spec_windows_match(assets@[j].name@),
    {
        if windows_match(assets[i].name.as_slice()) {
            return Some(i);
        }
    }
    None
}

} // verus!
