use vstd::prelude::*;

verus! {

/// The text obtained from `s` by replacing, from left to right, every
/// non-overlapping occurrence of `pat` with `rep`.
pub open spec fn replace_all(s: Seq<char>, pat: Seq<char>, rep: Seq<char>) -> Seq<char>
    decreases s.len(),
{
    if pat.len() == 0 || s.len() < pat.len() {
        s
    } else if s.subrange(0, pat.len() as int) == pat {
        rep + replace_all(s.subrange(pat.len() as int, s.len() as int), pat, rep)
    } else {
        seq![s[0]] + replace_all(s.subrange(1, s.len() as int), pat, rep)
    }
}

/// Whether `pat` occurs in `s` starting at index `i`.
pub open spec fn occurs_at(s: Seq<char>, pat: Seq<char>, i: int) -> bool {
    0 <= i && i + pat.len() <= s.len() && s.subrange(i, i + pat.len()) == pat
}

/// Whether `pat` occurs anywhere in `s`.
pub open spec fn contains(s: Seq<char>, pat: Seq<char>) -> bool {
    exists|i: int| occurs_at(s, pat, i)
}

/// Whether `s` holds neither `{` nor `}`.
pub open spec fn brace_free(s: Seq<char>) -> bool {
    forall|i: int| 0 <= i < s.len() ==> s[i] != '{' && s[i] != '}'
}

/// The placeholder `{name}`.
pub open spec fn token(name: Seq<char>) -> Seq<char> {
    seq!['{'] + name + seq!['}']
}

/// Whether `s` begins with `x`.
pub open spec fn starts_with(s: Seq<char>, x: Seq<char>) -> bool {
    x.len() <= s.len() && s.subrange(0, x.len() as int) == x
}

/// What `pat` occurs in after its first character also occurs in `s` after
/// its first character.
proof fn lemma_contains_drop_first(s: Seq<char>, pat: Seq<char>)
    requires
        s.len() > 0,
        contains(s.drop_first(), pat),
    ensures
        contains(s, pat),
{
    let i = choose|i: int| occurs_at(s.drop_first(), pat, i);
    assert(s.subrange(i + 1, i + 1 + pat.len()) =~= s.drop_first().subrange(i, i + pat.len()));
    assert(occurs_at(s, pat, i + 1));
}

/// A text that begins with `w}` after the replacement, where `w` does not
/// contain the brace-free replacement, began with `w}` before it.
proof fn lemma_closing_prefix(t: Seq<char>, pat: Seq<char>, rep: Seq<char>, w: Seq<char>)
    requires
        pat.len() > 0,
        brace_free(rep),
        !contains(w, rep),
        starts_with(replace_all(t, pat, rep), w + seq!['}']),
    ensures
        starts_with(t, w + seq!['}']),
    decreases t.len(),
{
    let out = replace_all(t, pat, rep);
    let x = w + seq!['}'];
    if t.len() < pat.len() {
    } else if t.subrange(0, pat.len() as int) == pat {
        let rest = replace_all(t.subrange(pat.len() as int, t.len() as int), pat, rep);
        assert(out == rep + rest);
        if rep.len() <= w.len() {
            assert(w.subrange(0, rep.len() as int) =~= rep) by {
                assert forall|k: int| 0 <= k < rep.len() implies w.subrange(0, rep.len() as int)[k]
                    == rep[k] by {
                    assert(out.subrange(0, x.len() as int)[k] == x[k]);
                }
            }
            assert(occurs_at(w, rep, 0));
        } else {
            assert(out.subrange(0, x.len() as int)[w.len() as int] == x[w.len() as int]);
            assert(rep[w.len() as int] == '}');
        }
    } else {
        let t1 = t.subrange(1, t.len() as int);
        let rest = replace_all(t1, pat, rep);
        assert(out == seq![t[0]] + rest);
        if w.len() == 0 {
            assert(out.subrange(0, x.len() as int)[0] == x[0]);
            assert(t.subrange(0, x.len() as int) =~= x);
        } else {
            let w1 = w.drop_first();
            if contains(w1, rep) {
                lemma_contains_drop_first(w, rep);
            }
            assert(out.subrange(0, x.len() as int)[0] == x[0]);
            assert(rest.subrange(0, w1.len() + 1 as int) =~= w1 + seq!['}']) by {
                assert forall|k: int| 0 <= k < w1.len() + 1 implies rest.subrange(0, w1.len() + 1 as int)[k]
                    == (w1 + seq!['}'])[k] by {
                    assert(out.subrange(0, x.len() as int)[k + 1] == x[k + 1]);
                }
            }
            lemma_closing_prefix(t1, pat, rep, w1);
            assert(t.subrange(0, x.len() as int) =~= x) by {
                assert forall|k: int| 0 <= k < x.len() implies t.subrange(0, x.len() as int)[k]
                    == x[k] by {
                    if k > 0 {
                        assert(t1.subrange(0, w1.len() + 1 as int)[k - 1] == (w1 + seq!['}'])[k - 1]);
                    }
                }
            }
        }
    }
}

/// Replacing `pat` by a brace-free text `rep` that `name` does not contain
/// leaves no placeholder `{name}` in the result, where `{name}` is `pat`
/// itself or was not in `s` before.
pub proof fn lemma_no_token_after_replace(s: Seq<char>, pat: Seq<char>, rep: Seq<char>, name: Seq<char>)
    requires
        pat.len() > 0,
        brace_free(rep),
        !contains(name, rep),
        token(name) == pat || !contains(s, token(name)),
    ensures
        !contains(replace_all(s, pat, rep), token(name)),
    decreases s.len(),
{
    let tok = token(name);
    let out = replace_all(s, pat, rep);
    if s.len() < pat.len() {
        if token(name) == pat {
            assert forall|i: int| !occurs_at(out, tok, i) by {}
        }
    } else if s.subrange(0, pat.len() as int) == pat {
        let s1 = s.subrange(pat.len() as int, s.len() as int);
        let rest = replace_all(s1, pat, rep);
        if contains(s1, tok) {
            let i = choose|i: int| occurs_at(s1, tok, i);
            assert(s.subrange(i + pat.len(), i + pat.len() + tok.len()) =~= s1.subrange(i, i + tok.len()));
            assert(occurs_at(s, tok, i + pat.len()));
        }
        lemma_no_token_after_replace(s1, pat, rep, name);
        assert(out == rep + rest);
        assert forall|i: int| !occurs_at(out, tok, i) by {
            if occurs_at(out, tok, i) {
                assert(out.subrange(i, i + tok.len())[0] == tok[0]);
                if i < rep.len() {
                    assert(rep[i] == '{');
                } else {
                    assert(rest.subrange(i - rep.len(), i - rep.len() + tok.len()) =~= out.subrange(i, i + tok.len()));
                    assert(occurs_at(rest, tok, i - rep.len()));
                }
            }
        }
    } else {
        let s1 = s.subrange(1, s.len() as int);
        let rest = replace_all(s1, pat, rep);
        if contains(s1, tok) {
            assert(s1 =~= s.drop_first());
            lemma_contains_drop_first(s, tok);
        }
        lemma_no_token_after_replace(s1, pat, rep, name);
        assert(out == seq![s[0]] + rest);
        assert forall|i: int| !occurs_at(out, tok, i) by {
            if occurs_at(out, tok, i) {
                if i >= 1 {
                    assert(rest.subrange(i - 1, i - 1 + tok.len()) =~= out.subrange(i, i + tok.len()));
                    assert(occurs_at(rest, tok, i - 1));
                } else {
                    let x = name + seq!['}'];
                    assert(rest.subrange(0, x.len() as int) =~= x) by {
                        assert forall|k: int| 0 <= k < x.len() implies rest.subrange(0, x.len() as int)[k]
                            == x[k] by {
                            assert(out.subrange(0, tok.len() as int)[k + 1] == tok[k + 1]);
                        }
                    }
                    lemma_closing_prefix(s1, pat, rep, name);
                    assert(out.subrange(0, tok.len() as int)[0] == tok[0]);
                    assert(s.subrange(0, tok.len() as int) =~= tok) by {
                        assert forall|k: int| 0 <= k < tok.len() implies s.subrange(0, tok.len() as int)[k]
                            == tok[k] by {
                            if k > 0 {
                                assert(s1.subrange(0, x.len() as int)[k - 1] == x[k - 1]);
                            }
                        }
                    }
                    assert(occurs_at(s, tok, 0));
                }
            }
        }
    }
}

fn matches_at(s: &str, n: usize, pat: &str, m: usize, i: usize) -> (r: bool)
    requires
        n == s@.len(),
        m == pat@.len(),
        i <= n,
    ensures
        r == occurs_at(s@, pat@, i as int),
{
    if m > n - i {
        return false;
    }
    let mut j: usize = 0;
    while j < m
        invariant
            m <= n - i,
            n == s@.len(),
            m == pat@.len(),
            j <= m,
            forall|k: int| 0 <= k < j ==> s@[i + k] == pat@[k],
        decreases m - j,
    {
        if s.get_char(i + j) != pat.get_char(j) {
            assert(s@.subrange(i as int, i + m)[j as int] != pat@[j as int]);
            return false;
        }
        j = j + 1;
    }
    assert(s@.subrange(i as int, i + m) =~= pat@);
    true
}

/// Replaces every non-overlapping occurrence of `pat` in `s`, scanning left to
/// right, with `rep`.
pub fn replace(s: &str, pat: &str, rep: &str) -> (r: String)
    requires
        pat@.len() > 0,
    ensures
        r@ == replace_all(s@, pat@, rep@),
{
    let n = s.unicode_len();
    let m = pat.unicode_len();
    let mut out = String::new();
    let mut i: usize = 0;
    assert(s@.subrange(0, n as int) =~= s@);
    assert(out@ + replace_all(s@, pat@, rep@) =~= replace_all(s@, pat@, rep@));
    while i < n
        invariant
            n == s@.len(),
            m == pat@.len(),
            m > 0,
            i <= n,
            out@ + replace_all(s@.subrange(i as int, n as int), pat@, rep@) == replace_all(
                s@,
                pat@,
                rep@,
            ),
        decreases n - i,
    {
        let rest = Ghost(s@.subrange(i as int, n as int));
        if matches_at(s, n, pat, m, i) {
            assert(rest@.subrange(0, m as int) =~= s@.subrange(i as int, i + m));
            assert(rest@.subrange(m as int, rest@.len() as int) =~= s@.subrange(
                i + m,
                n as int,
            ));
            out.append(rep);
            i = i + m;
        } else {
            proof {
                if i + m <= n {
                    assert(rest@.subrange(0, m as int) =~= s@.subrange(i as int, i + m));
                }
            }
            assert(rest@.subrange(1, rest@.len() as int) =~= s@.subrange(i + 1, n as int));
            let c = s.substring_char(i, i + 1);
            assert(c@ =~= seq![rest@[0]]);
            out.append(c);
            i = i + 1;
        }
    }
    assert(s@.subrange(n as int, n as int) =~= Seq::<char>::empty());
    assert(out@ + Seq::<char>::empty() =~= out@);
    out
}

} // verus!
