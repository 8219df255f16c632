use vstd::prelude::*;

use proto_pdk::VersionSpec;

verus! {

/// Whether `proto_pdk::VersionSpec::parse` reads the text as a concrete
/// version (neither an alias nor the canary marker, and no error).
pub uninterp spec fn parses_as_version(s: Seq<char>) -> bool;

/// Whether the value that `proto_pdk::VersionSpec::parse` reads from `a`
/// (if any) comes no later than the one it reads from `b`.
pub uninterp spec fn version_le(a: Seq<char>, b: Seq<char>) -> bool;

/// The text that `str::trim` leaves of `s`.
pub uninterp spec fn trim_of(s: Seq<char>) -> Seq<char>;

/// Relies on `proto_pdk::VersionSpec::parse`: whether it returns the
/// `Version` variant for the text.
#[verifier::external_body]
fn is_version(s: &str) -> (r: bool)
    ensures
        r == parses_as_version(s@),
{
    matches!(VersionSpec::parse(s), Ok(VersionSpec::Version(_)))
}

/// Relies on `proto_pdk::VersionSpec::parse` and on the `Ord` of
/// `Option<VersionSpec>` (derived on `VersionSpec`, written by hand on its
/// `Version` as a lexicographic comparison): a total order, so two texts
/// compare one way or the other, and comparisons chain.
#[verifier::external_body]
fn version_precedes(a: &str, b: &str) -> (r: bool)
    ensures
        r == version_le(a@, b@),
        !r ==> version_le(b@, a@),
        r ==> forall|c: Seq<char>| #[trigger] version_le(b@, c) ==> version_le(a@, c),
        r ==> forall|c: Seq<char>| #[trigger] version_le(c, a@) ==> version_le(c, b@),
{
    VersionSpec::parse(a).ok() <= VersionSpec::parse(b).ok()
}

/// Relies on `str::trim`: the text without its leading and trailing white space.
#[verifier::external_body]
fn trim<'a>(s: &'a str) -> (r: &'a str)
    ensures
        r@ == trim_of(s@),
{
    s.trim()
}

/// `s` without one leading `v`, if it has one.
pub open spec fn strip_v(s: Seq<char>) -> Seq<char> {
    if s.len() > 0 && s[0] == 'v' {
        s.subrange(1, s.len() as int)
    } else {
        s
    }
}

/// The text of a tag name that is read as a version.
pub open spec fn tag_text(name: Seq<char>) -> Seq<char> {
    strip_v(trim_of(name))
}

/// Whether a tag's text names a release: it starts with an ASCII digit and
/// parses as a concrete version.
pub open spec fn is_release_text(t: Seq<char>) -> bool {
    t.len() > 0 && '0' <= t[0] && t[0] <= '9' && parses_as_version(t)
}

/// The release texts of the tags, in the order of the tags.
pub open spec fn release_texts(names: Seq<Seq<char>>) -> Seq<Seq<char>>
    decreases names.len(),
{
    if names.len() == 0 {
        Seq::empty()
    } else {
        let init = release_texts(names.drop_last());
        let t = tag_text(names.last());
        if is_release_text(t) {
            init.push(t)
        } else {
            init
        }
    }
}

/// The texts of a list of strings.
pub open spec fn texts(v: Seq<String>) -> Seq<Seq<char>> {
    v.map_values(|s: String| s@)
}

/// Every text comes no later than each one after it.
pub open spec fn sorted_versions(s: Seq<Seq<char>>) -> bool {
    forall|i: int, j: int| 0 <= i < j < s.len() ==> version_le(s[i], s[j])
}

/// The version text of a tag name, if the tag names a release.
pub fn release_text(name: &str) -> (r: Option<String>)
    ensures
        r is Some <==> is_release_text(tag_text(name@)),
        r matches Some(t) ==> t@ == tag_text(name@),
{
    let s = trim(name);
    let n = s.unicode_len();
    let s = if n > 0 && s.get_char(0) == 'v' {
        s.substring_char(1, n)
    } else {
        s
    };
    let n = s.unicode_len();
    if n == 0 {
        return None;
    }
    let c = s.get_char(0);
    if c < '0' || c > '9' {
        return None;
    }
    if is_version(s) {
        Some(s.to_string())
    } else {
        None
    }
}

/// Inserts `x` into a list ordered by version, after every element that
/// comes no later than it.
pub fn insert_sorted(v: &mut Vec<String>, x: String)
    requires
        sorted_versions(texts(old(v)@)),
    ensures
        sorted_versions(texts(final(v)@)),
        texts(final(v)@).to_multiset() == texts(old(v)@).to_multiset().insert(x@),
{
    let ghost before = texts(v@);
    let mut j: usize = 0;
    while j < v.len()
        invariant
            v@ == old(v)@,
            j <= v.len(),
            before == texts(v@),
            sorted_versions(before),
            forall|k: int| 0 <= k < j ==> version_le(#[trigger] before[k], x@),
        ensures
            j <= v.len(),
            v@ == old(v)@,
            forall|k: int| 0 <= k < j ==> version_le(#[trigger] before[k], x@),
            forall|k: int| j <= k < before.len() ==> version_le(x@, #[trigger] before[k]),
        decreases v.len() - j,
    {
        if !version_precedes(v[j].as_str(), x.as_str()) {
            let up = version_precedes(x.as_str(), v[j].as_str());
            assert(up);
            assert forall|k: int| j <= k < before.len() implies version_le(
                x@,
                #[trigger] before[k],
            ) by {
                if k > j {
                    assert(version_le(before[j as int], before[k]));
                }
            }
            break;
        }
        j = j + 1;
    }
    let ghost xv = x@;
    v.insert(j, x);
    let ghost after = texts(v@);
    assert(after =~= before.insert(j as int, xv));
    assert(after.remove(j as int) =~= before);
    proof {
        broadcast use vstd::seq_lib::group_to_multiset_ensures;

        assert(after.to_multiset().count(xv) > 0) by {
            assert(after[j as int] == xv);
            assert(after.contains(xv));
        }
        assert(after.to_multiset() =~= after.to_multiset().remove(xv).insert(xv));
    }
    assert(sorted_versions(after)) by {
        assert forall|a: int, b: int| 0 <= a < b < after.len() implies version_le(
            after[a],
            after[b],
        ) by {
            if b < j {
                assert(version_le(before[a], before[b]));
            } else if b == j {
                assert(version_le(before[a], xv));
            } else if a < j {
                assert(version_le(before[a], before[b - 1]));
            } else if a == j {
                assert(version_le(xv, before[b - 1]));
            } else {
                assert(version_le(before[a - 1], before[b - 1]));
            }
        }
    }
}

/// The releases found among a remote's tags, ordered, with the latest one.
#[derive(Clone, Debug)]
pub struct LoadedVersions {
    /// Every release text, ascending by version; a release tagged twice appears twice.
    pub versions: Vec<String>,
    /// The greatest release, if there is any.
    pub latest: Option<String>,
}

/// Reads the tag names of a remote as releases: each name is trimmed and
/// loses one leading `v`; names that do not read as a release are dropped.
/// The releases come ordered by version, with the last one as `latest`.
pub fn load_versions(tag_names: &Vec<String>) -> (r: LoadedVersions)
    ensures
        texts(r.versions@).to_multiset() == release_texts(texts(tag_names@)).to_multiset(),
        forall|i: int| 0 <= i < r.versions@.len() ==> is_release_text(#[trigger] r.versions@[i]@),
        sorted_versions(texts(r.versions@)),
        forall|i: int|
            0 <= i < r.versions@.len() - 1 ==> version_le(
                #[trigger] r.versions@[i]@,
                r.versions@[i + 1]@,
            ),
        r.latest is None <==> r.versions@.len() == 0,
        r.latest matches Some(l) ==> l@ == r.versions@.last()@ && forall|i: int|
            0 <= i < r.versions@.len() - 1 ==> version_le(#[trigger] r.versions@[i]@, l@),
{
    let ghost names = texts(tag_names@);
    let mut versions: Vec<String> = Vec::new();
    let mut i: usize = 0;
    assert(texts(versions@) =~= Seq::<Seq<char>>::empty());
    assert(names.subrange(0, 0) =~= Seq::<Seq<char>>::empty());
    while i < tag_names.len()
        invariant
            i <= tag_names@.len(),
            names == texts(tag_names@),
            sorted_versions(texts(versions@)),
            texts(versions@).to_multiset() == release_texts(names.subrange(0, i as int)).to_multiset(),
        decreases tag_names.len() - i,
    {
        let ghost prefix = names.subrange(0, i as int + 1);
        assert(prefix.drop_last() =~= names.subrange(0, i as int));
        assert(prefix.last() == tag_names@[i as int]@);
        match release_text(tag_names[i].as_str()) {
            Some(t) => {
                proof {
                    broadcast use vstd::seq_lib::group_to_multiset_ensures;

                    assert(release_texts(prefix) == release_texts(names.subrange(0, i as int)).push(t@));
                }
                insert_sorted(&mut versions, t);
            },
            None => {},
        }
        i = i + 1;
    }
    assert(names.subrange(0, i as int) =~= names);
    proof {
        broadcast use vstd::seq_lib::group_to_multiset_ensures;

        assert forall|k: int| 0 <= k < versions@.len() implies is_release_text(
            #[trigger] versions@[k]@,
        ) by {
            let vs = texts(versions@);
            assert(vs[k] == versions@[k]@);
            assert(vs.contains(vs[k]));
            assert(vs.to_multiset().count(vs[k]) > 0);
            lemma_release_texts_are_releases(names);
            assert(release_texts(names).contains(vs[k]));
        }
    }
    let n = versions.len();
    let latest = if n > 0 {
        Some(versions[n - 1].clone())
    } else {
        None
    };
    proof {
        if n > 0 {
            assert forall|k: int| 0 <= k < n - 1 implies version_le(
                #[trigger] versions@[k]@,
                versions@[n - 1]@,
            ) by {
                assert(texts(versions@)[k] == versions@[k]@);
                assert(texts(versions@)[n - 1] == versions@[n - 1]@);
            }
        }
        assert forall|k: int| 0 <= k < n - 1 implies version_le(
            #[trigger] versions@[k]@,
            versions@[k + 1]@,
        ) by {
            assert(texts(versions@)[k] == versions@[k]@);
            assert(texts(versions@)[k + 1] == versions@[k + 1]@);
        }
    }
    LoadedVersions { versions, latest }
}

/// Every entry of `release_texts` is a release text.
proof fn lemma_release_texts_are_releases(names: Seq<Seq<char>>)
    ensures
        forall|t: Seq<char>| release_texts(names).contains(t) ==> is_release_text(t),
    decreases names.len(),
{
    if names.len() > 0 {
        lemma_release_texts_are_releases(names.drop_last());
        let init = release_texts(names.drop_last());
        assert forall|t: Seq<char>| release_texts(names).contains(t) implies is_release_text(t) by {
            let tt = tag_text(names.last());
            if is_release_text(tt) {
                let k = choose|k: int| 0 <= k < init.push(tt).len() && init.push(tt)[k] == t;
                if k < init.len() {
                    assert(init.contains(t));
                }
            }
        }
    }
}

} // verus!
