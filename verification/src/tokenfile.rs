//! The on-disk form of a token record: one JSON object, rendered and decoded
//! here, written and read by the caller.
//!
//! The canonical rendering is fixed by [`spec_render_token`]: the five fields
//! in a fixed order, strings quoted without escapes, instants as RFC3339
//! text, absent fields as `null`. The store's invariant keeps quotes,
//! backslashes and control characters out of the text fields, so the
//! escape-free form represents every record the store admits. The decoder
//! accepts exactly the canonical renderings: anything else is a malformed
//! record, which the caller answers with a fresh authorization.

use vstd::prelude::*;
use vstd::string::StringExecFns;

use crate::errors::TokenError;
use crate::strutil::{plain_char, plain_str};
use crate::time::{format_rfc3339, parse_rfc3339, rfc3339_char, rfc3339_of, rfc3339_wf,
    ts_in_range, MAX_TIMESTAMP};
use crate::token::{token_view_wf, token_wf, Token, TokenView};

verus! {

/// A quoted string field: a quote, the text itself, a quote.
pub open spec fn spec_render_string(f: Seq<char>) -> Seq<char> {
    "\""@ + f + "\""@
}

/// An optional string field: its quoted text, or `null`.
pub open spec fn spec_render_opt_string(of: Option<Seq<char>>) -> Seq<char> {
    match of {
        Some(f) => spec_render_string(f),
        None => "null"@,
    }
}

/// The first `n` scope names, quoted and comma-separated.
pub open spec fn spec_scope_items(ss: Seq<Seq<char>>, n: int) -> Seq<char>
    decreases n,
{
    if n <= 0 {
        Seq::empty()
    } else if n == 1 {
        spec_render_string(ss[0])
    } else {
        spec_scope_items(ss, n - 1) + ","@ + spec_render_string(ss[n - 1])
    }
}

/// The scopes field: a bracketed list of quoted names, or `null`.
pub open spec fn spec_render_scopes(os: Option<Seq<Seq<char>>>) -> Seq<char> {
    match os {
        Some(ss) => "["@ + spec_scope_items(ss, ss.len() as int) + "]"@,
        None => "null"@,
    }
}

/// The canonical on-disk rendering of a token record.
pub open spec fn spec_render_token(v: TokenView) -> Seq<char> {
    "{\"access_token\":\""@ + v.access_token + "\",\"refresh_token\":"@ + spec_render_opt_string(
        v.refresh_token,
    ) + ",\"created_at\":\""@ + rfc3339_of(v.created_at) + "\",\"valid_till\":\""@ + rfc3339_of(
        v.valid_till,
    ) + "\",\"scopes\":"@ + spec_render_scopes(v.scopes) + "}"@
}

/// Both instants of the record render to the fixed twenty-character shape.
/// Rendering establishes this; decoding leans on it.
pub open spec fn instants_render_wf(v: TokenView) -> bool {
    rfc3339_wf(rfc3339_of(v.created_at)) && rfc3339_wf(rfc3339_of(v.valid_till))
}

/// Appends a quoted string field to the rendering.
fn append_quoted(out: &mut String, f: &str)
    ensures
        final(out)@ == old(out)@ + spec_render_string(f@),
{
    out.append("\"");
    out.append(f);
    out.append("\"");
    proof {
        assert(final(out)@ =~= old(out)@ + spec_render_string(f@));
    }
}

/// Renders a token record to its canonical on-disk text.
pub fn render_token(t: &Token) -> (r: String)
    requires
        token_wf(*t),
    ensures
        r@ == spec_render_token(t@),
        instants_render_wf(t@),
{
    let mut out = String::new();
    out.append("{\"access_token\":\"");
    out.append(t.access_token.as_str());
    out.append("\",\"refresh_token\":");
    match &t.refresh_token {
        Some(rt) => append_quoted(&mut out, rt.as_str()),
        None => out.append("null"),
    }
    proof {
        assert(out@ =~= "{\"access_token\":\""@ + t@.access_token + "\",\"refresh_token\":"@
            + spec_render_opt_string(t@.refresh_token));
    }
    out.append(",\"created_at\":\"");
    let created = format_rfc3339(t.created_at);
    out.append(created.as_str());
    out.append("\",\"valid_till\":\"");
    let till = format_rfc3339(t.valid_till);
    out.append(till.as_str());
    out.append("\",\"scopes\":");
    let ghost pre: Seq<char> = out@;
    match &t.scopes {
        None => out.append("null"),
        Some(ss) => {
            out.append("[");
            let ghost ssv: Seq<Seq<char>> = ss.deep_view();
            let n = ss.len();
            let mut i: usize = 0;
            proof {
                assert(ssv.len() == n) by {
                    assert(ss.deep_view().len() == ss@.len());
                }
                assert(out@ =~= pre + "["@ + spec_scope_items(ssv, 0));
            }
            while i < n
                invariant
                    n == ss@.len(),
                    ssv == ss.deep_view(),
                    ssv.len() == n,
                    i <= n,
                    out@ == pre + "["@ + spec_scope_items(ssv, i as int),
                decreases n - i,
            {
                if i > 0 {
                    out.append(",");
                }
                append_quoted(&mut out, ss[i].as_str());
                proof {
                    assert(ssv[i as int] == ss@[i as int]@);
                    if i == 0 {
                        assert(spec_scope_items(ssv, 1) == spec_render_string(ssv[0]));
                        assert(out@ =~= pre + "["@ + spec_scope_items(ssv, 1));
                    } else {
                        assert(spec_scope_items(ssv, i as int + 1) == spec_scope_items(
                            ssv,
                            i as int,
                        ) + ","@ + spec_render_string(ssv[i as int]));
                        assert(out@ =~= pre + "["@ + spec_scope_items(ssv, i as int + 1));
                    }
                }
                i += 1;
            }
            out.append("]");
            proof {
                assert(out@ =~= pre + ("["@ + spec_scope_items(ssv, ssv.len() as int) + "]"@));
            }
        },
    }
    out.append("}");
    proof {
        assert(out@ =~= spec_render_token(t@));
    }
    out
}

/// Whether `lit` stands at position `i` of `s`.
pub open spec fn lit_at(s: Seq<char>, i: int, lit: Seq<char>) -> bool {
    i + lit.len() <= s.len() && s.subrange(i, i + lit.len()) == lit
}

/// Checks that the literal `lit` stands at position `i` of `s`, and steps
/// past it.
fn expect_lit(s: &str, i: usize, lit: &str) -> (r: Option<usize>)
    requires
        i <= s@.len(),
    ensures
        r matches Some(j) ==> j == i + lit@.len() && lit_at(s@, i as int, lit@),
        r is None ==> !lit_at(s@, i as int, lit@),
{
    let n = s.unicode_len();
    let m = lit.unicode_len();
    if m > n - i {
        return None;
    }
    let mut k: usize = 0;
    while k < m
        invariant
            n == s@.len(),
            m == lit@.len(),
            i + m <= n,
            k <= m,
            forall|p: int| 0 <= p < k ==> s@[i + p] == lit@[p],
        decreases m - k,
    {
        if s.get_char(i + k) != lit.get_char(k) {
            proof {
                assert(s@.subrange(i as int, i + m) != lit@) by {
                    assert(s@.subrange(i as int, i + m)[k as int] == s@[i + k]);
                }
            }
            return None;
        }
        k += 1;
    }
    proof {
        assert(s@.subrange(i as int, i + m) =~= lit@);
    }
    Some(i + m)
}

/// Scans the plain characters from position `i` up to the next quote, and
/// steps past that closing quote. Fails if anything but plain characters
/// stands before the next quote, or if no quote follows at all.
fn scan_quoted(s: &str, i: usize) -> (r: Option<(String, usize)>)
    requires
        i <= s@.len(),
    ensures
        r matches Some((f, j)) ==> {
            &&& i < j <= s@.len()
            &&& f@ == s@.subrange(i as int, j - 1)
            &&& s@[j - 1] == '"'
            &&& plain_str(f@)
        },
        r is None ==> forall|j: int|
            i <= j < s@.len() && s@[j] == '"' ==> exists|k: int|
                i <= k < j && !plain_char(#[trigger] s@[k]),
{
    let n = s.unicode_len();
    let mut k: usize = i;
    while k < n
        invariant
            n == s@.len(),
            i <= k <= n,
            forall|p: int| i <= p < k ==> plain_char(#[trigger] s@[p]) && s@[p] != '"',
        decreases n - k,
    {
        let c = s.get_char(k);
        if c == '"' {
            let f_str = s.substring_char(i, k);
            let f = <String as StringExecFns>::from_str(f_str);
            return Some((f, k + 1));
        }
        if c == '\\' || (c as u32) < 0x20 {
            proof {
                assert forall|j: int| i <= j < s@.len() && s@[j] == '"' implies exists|k2: int|
                    i <= k2 < j && !plain_char(#[trigger] s@[k2]) by {
                    if j > k {
                        assert(i <= k < j && !plain_char(s@[k as int]));
                    }
                }
            }
            return None;
        }
        k += 1;
    }
    None
}

/// Pins a successful quoted scan down: where the text at `i` is a plain run
/// `f` closed by a quote, the scan's result is exactly `f` and the scan stops
/// exactly past that quote.
proof fn lemma_scan_quoted_unique(s: Seq<char>, i: int, f: Seq<char>, g: Seq<char>, j: int)
    requires
        plain_str(f),
        0 <= i,
        i + f.len() < s.len(),
        s.subrange(i, i + f.len()) == f,
        s[i + f.len()] == '"',
        plain_str(g),
        i < j <= s.len(),
        g == s.subrange(i, j - 1),
        s[j - 1] == '"',
    ensures
        g == f,
        j == i + f.len() + 1,
{
    if j - 1 < i + f.len() {
        assert(f[j - 1 - i] == s[j - 1]);
        assert(plain_char(f[j - 1 - i]));
        assert(false);
    } else if j - 1 > i + f.len() {
        assert(g[f.len() as int] == s[i + f.len()]);
        assert(plain_char(g[f.len() as int]));
        assert(false);
    }
    assert(g =~= f);
}

/// The shape of one quoted string: a quote, the text, a quote.
proof fn lemma_qstr(f: Seq<char>)
    ensures
        spec_render_string(f).len() == f.len() + 2,
        spec_render_string(f)[0] == '"',
        spec_render_string(f)[f.len() as int + 1] == '"',
        spec_render_string(f).subrange(1, 1 + f.len() as int) == f,
{
    reveal_strlit("\"");
    assert(spec_render_string(f).subrange(1, 1 + f.len() as int) =~= f);
}

/// Offset of item `k`'s opening quote within the rendered scopes list.
pub open spec fn item_off(ss: Seq<Seq<char>>, k: int) -> int
    decreases k,
{
    if k <= 0 {
        1
    } else {
        item_off(ss, k - 1) + ss[k - 1].len() + 3
    }
}

/// Relates an item's offset to the length of the items rendered before it.
proof fn lemma_item_off_len(ss: Seq<Seq<char>>, k: int)
    requires
        0 <= k <= ss.len(),
    ensures
        item_off(ss, k) == 1 + spec_scope_items(ss, k).len() + (if k > 0 {
            1int
        } else {
            0int
        }),
    decreases k,
{
    reveal_strlit(",");
    if k > 0 {
        lemma_item_off_len(ss, k - 1);
        lemma_qstr(ss[k - 1]);
    }
}

/// The first `k` items stand unchanged at the front of any longer item list.
proof fn lemma_items_prefix(ss: Seq<Seq<char>>, k: int, n: int)
    requires
        0 <= k <= n <= ss.len(),
    ensures
        spec_scope_items(ss, k).len() <= spec_scope_items(ss, n).len(),
        spec_scope_items(ss, n).subrange(0, spec_scope_items(ss, k).len() as int)
            == spec_scope_items(ss, k),
    decreases n - k,
{
    if n == k {
        assert(spec_scope_items(ss, n).subrange(0, spec_scope_items(ss, k).len() as int)
            =~= spec_scope_items(ss, k));
    } else {
        lemma_items_prefix(ss, k, n - 1);
        assert(spec_scope_items(ss, n).subrange(0, spec_scope_items(ss, k).len() as int)
            =~= spec_scope_items(ss, k));
    }
}

/// Where item `k` and its following separator stand in the rendered list.
proof fn lemma_scopes_layout(ss: Seq<Seq<char>>, k: int)
    requires
        0 <= k < ss.len(),
    ensures
        ({
            let ls = spec_render_scopes(Some(ss));
            &&& 1 <= item_off(ss, k)
            &&& item_off(ss, k) + ss[k].len() + 3 <= ls.len()
            &&& ls[item_off(ss, k)] == '"'
            &&& ls.subrange(item_off(ss, k) + 1, item_off(ss, k) + 1 + ss[k].len() as int)
                == ss[k]
            &&& ls[item_off(ss, k) + 1 + ss[k].len()] == '"'
            &&& (k + 1 < ss.len() ==> ls[item_off(ss, k) + 2 + ss[k].len()] == ',')
            &&& (k + 1 == ss.len() ==> ls[item_off(ss, k) + 2 + ss[k].len()] == ']' && item_off(
                ss,
                k,
            ) + 3 + ss[k].len() == ls.len())
        }),
{
    reveal_strlit("[");
    reveal_strlit("]");
    reveal_strlit(",");
    let ls = spec_render_scopes(Some(ss));
    let n = ss.len() as int;
    lemma_item_off_len(ss, k);
    lemma_item_off_len(ss, k + 1);
    lemma_items_prefix(ss, k + 1, n);
    lemma_qstr(ss[k]);
    let items_n = spec_scope_items(ss, n);
    let items_k1 = spec_scope_items(ss, k + 1);
    let q0 = item_off(ss, k) - 1;
    // item k's quoted text closes the first k + 1 items
    if k == 0 {
        assert(items_k1 == spec_render_string(ss[0]));
    } else {
        lemma_item_off_len(ss, k - 1);
        assert(items_k1 == spec_scope_items(ss, k) + ","@ + spec_render_string(ss[k]));
    }
    assert(items_k1.len() == q0 + ss[k].len() + 2);
    assert forall|m: int| 0 <= m < ss[k].len() + 2 implies items_k1[q0 + m]
        == spec_render_string(ss[k])[m] by {}
    assert forall|m: int| 0 <= m < items_k1.len() implies items_n[m] == items_k1[m] by {
        assert(items_n.subrange(0, items_k1.len() as int)[m] == items_n[m]);
    }
    assert forall|m: int| 0 <= m < items_n.len() implies ls[1 + m] == items_n[m] by {}
    assert(ls.subrange(item_off(ss, k) + 1, item_off(ss, k) + 1 + ss[k].len() as int) =~= ss[k]);
    if k + 1 < n {
        lemma_item_off_len(ss, k + 2);
        lemma_items_prefix(ss, k + 2, n);
        let items_k2 = spec_scope_items(ss, k + 2);
        assert(items_k2 == spec_scope_items(ss, k + 1) + ","@ + spec_render_string(ss[k + 1]));
        assert(items_n[items_k1.len() as int] == items_k2[items_k1.len() as int]) by {
            assert(items_n.subrange(0, items_k2.len() as int)[items_k1.len() as int]
                == items_n[items_k1.len() as int]);
        }
        assert(ls[item_off(ss, k) + 2 + ss[k].len()] == ',');
    } else {
        assert(ls[1 + items_n.len() as int] == ']');
    }
}

/// The rendering of an empty scopes list.
proof fn lemma_scopes_empty(ss: Seq<Seq<char>>)
    requires
        ss.len() == 0,
    ensures
        spec_render_scopes(Some(ss)).len() == 2,
        spec_render_scopes(Some(ss))[0] == '[',
        spec_render_scopes(Some(ss))[1] == ']',
{
    reveal_strlit("[");
    reveal_strlit("]");
}

/// The rendered scopes field starts with `[` for a list and `n` for `null`.
proof fn lemma_scopes_first_char(os: Option<Seq<Seq<char>>>)
    ensures
        spec_render_scopes(os).len() >= 2,
        os is Some ==> spec_render_scopes(os)[0] == '[',
        os is None ==> spec_render_scopes(os)[0] == 'n' && spec_render_scopes(os) == "null"@
            && spec_render_scopes(os).len() == 4,
{
    reveal_strlit("[");
    reveal_strlit("]");
    reveal_strlit("null");
    if os is Some {
        let ss = os->Some_0;
        if ss.len() > 0 {
            lemma_scopes_layout(ss, 0);
        }
    }
}

/// Every character of a well-formed instant rendering is plain.
proof fn lemma_rfc3339_plain(s: Seq<char>)
    requires
        rfc3339_wf(s),
    ensures
        plain_str(s),
{
    assert forall|i: int| 0 <= i < s.len() implies plain_char(s[i]) by {
        assert(rfc3339_char(s[i]));
    }
}

/// The value of a decoded optional string field.
pub open spec fn opt_string_view(of: Option<String>) -> Option<Seq<char>> {
    match of {
        Some(f) => Some(f@),
        None => None,
    }
}

/// What the text looks like where an optional string field was rendered.
proof fn lemma_opt_string_at(s: Seq<char>, i: int, of: Option<Seq<char>>)
    requires
        0 <= i,
        lit_at(s, i, spec_render_opt_string(of)),
    ensures
        of matches Some(g) ==> {
            &&& s[i] == '"'
            &&& s.subrange(i + 1, i + 1 + g.len() as int) == g
            &&& s[i + 1 + g.len()] == '"'
            &&& i + 1 + g.len() < s.len()
            &&& spec_render_opt_string(of).len() == g.len() + 2
        },
        of is None ==> s[i] == 'n' && lit_at(s, i, "null"@) && spec_render_opt_string(of).len()
            == 4,
{
    reveal_strlit("null");
    match of {
        Some(g) => {
            lemma_qstr(g);
            let l = spec_render_opt_string(of).len() as int;
            assert forall|m: int| 0 <= m < l implies s[i + m] == spec_render_opt_string(of)[m] by {
                assert(s.subrange(i, i + l)[m] == s[i + m]);
            }
            assert(s.subrange(i + 1, i + 1 + g.len() as int) =~= g);
        },
        None => {
            assert("null"@.len() == 4);
            assert(spec_render_opt_string(of) == "null"@);
            assert(lit_at(s, i, "null"@));
            assert(s.subrange(i, i + 4) == "null"@);
            assert(s[i] == "null"@[0]) by {
                assert(s.subrange(i, i + 4)[0] == s[i]);
            }
            assert(s[i] == 'n');
        },
    }
}

/// Decodes an optional string field: a quoted plain run, or `null`. Accepts
/// exactly the canonical renderings and steps past what it decoded.
#[verifier::rlimit(100)]
fn parse_opt_string(s: &str, i: usize) -> (r: Option<(Option<String>, usize)>)
    requires
        i <= s@.len(),
    ensures
        r matches Some((of, j)) ==> {
            &&& i < j <= s@.len()
            &&& j == i + spec_render_opt_string(opt_string_view(of)).len()
            &&& s@.subrange(i as int, j as int) == spec_render_opt_string(opt_string_view(of))
            &&& (opt_string_view(of) matches Some(f) ==> plain_str(f))
        },
        forall|of: Option<Seq<char>>|
            (of matches Some(f) ==> plain_str(f)) && lit_at(
                s@,
                i as int,
                spec_render_opt_string(of),
            ) ==> (r matches Some((rf, j)) && opt_string_view(rf) == of && j == i
                + spec_render_opt_string(of).len()),
{
    let n = s.unicode_len();
    if i < n && s.get_char(i) == '"' {
        match scan_quoted(s, i + 1) {
            Some((f, j)) => {
                proof {
                    lemma_qstr(f@);
                    assert(s@.subrange(i as int, j as int) =~= spec_render_string(f@));
                    assert forall|of: Option<Seq<char>>|
                        (of matches Some(g) ==> plain_str(g)) && lit_at(
                            s@,
                            i as int,
                            spec_render_opt_string(of),
                        ) implies (opt_string_view(Some(f)) == of && j as int == i
                        + spec_render_opt_string(of).len()) by {
                        lemma_opt_string_at(s@, i as int, of);
                        let g = of->Some_0;
                        lemma_scan_quoted_unique(s@, i as int + 1, g, f@, j as int);
                    }
                }
                Some((Some(f), j))
            },
            None => {
                proof {
                    assert forall|of: Option<Seq<char>>|
                        (of matches Some(g) ==> plain_str(g)) && lit_at(
                            s@,
                            i as int,
                            spec_render_opt_string(of),
                        ) implies false by {
                        lemma_opt_string_at(s@, i as int, of);
                        let g = of->Some_0;
                        let k = choose|k: int|
                            i + 1 <= k < i + 1 + g.len() && !plain_char(#[trigger] s@[k]);
                        assert(s@.subrange(i + 1, i + 1 + g.len() as int)[k - (i + 1)] == s@[k]);
                    }
                }
                None
            },
        }
    } else {
        match expect_lit(s, i, "null") {
            Some(j) => {
                proof {
                    reveal_strlit("null");
                    assert forall|of: Option<Seq<char>>|
                        (of matches Some(g) ==> plain_str(g)) && lit_at(
                            s@,
                            i as int,
                            spec_render_opt_string(of),
                        ) implies (opt_string_view(None) == of && j as int == i
                        + spec_render_opt_string(of).len()) by {
                        lemma_opt_string_at(s@, i as int, of);
                    }
                }
                Some((None, j))
            },
            None => {
                proof {
                    assert forall|of: Option<Seq<char>>|
                        (of matches Some(g) ==> plain_str(g)) && lit_at(
                            s@,
                            i as int,
                            spec_render_opt_string(of),
                        ) implies false by {
                        lemma_opt_string_at(s@, i as int, of);
                    }
                }
                None
            },
        }
    }
}

/// Decodes one instant: a quoted canonical RFC3339 rendering. The decoded
/// value is re-rendered and compared, so exactly the canonical text of an
/// in-range instant is accepted; the step lands past the closing quote.
#[verifier::rlimit(100)]
fn parse_instant(s: &str, i: usize) -> (r: Option<(i64, usize)>)
    requires
        i <= s@.len(),
    ensures
        r matches Some((t, j)) ==> {
            &&& i < j <= s@.len()
            &&& ts_in_range(t)
            &&& rfc3339_wf(rfc3339_of(t))
            &&& s@.subrange(i as int, j - 1) == rfc3339_of(t)
            &&& s@[j - 1] == '"'
            &&& j == i + rfc3339_of(t).len() + 1
        },
        forall|t: i64|
            ts_in_range(t) && rfc3339_wf(rfc3339_of(t)) && lit_at(s@, i as int, rfc3339_of(t))
                && i + rfc3339_of(t).len() < s@.len() && s@[i + rfc3339_of(t).len()] == '"' ==> (
            r matches Some((rt, j)) && rt == t && j == i + rfc3339_of(t).len() + 1),
{
    let scanned = scan_quoted(s, i);
    proof {
        assert forall|t: i64|
            ts_in_range(t) && rfc3339_wf(rfc3339_of(t)) && lit_at(s@, i as int, rfc3339_of(t))
                && i + rfc3339_of(t).len() < s@.len() && s@[i + rfc3339_of(t).len()] == '"'
            implies (scanned matches Some((w, j)) && w@ == rfc3339_of(t) && j == i + rfc3339_of(
            t,
        ).len() + 1) by {
            lemma_rfc3339_plain(rfc3339_of(t));
            match scanned {
                Some((w, j)) => {
                    lemma_scan_quoted_unique(s@, i as int, rfc3339_of(t), w@, j as int);
                },
                None => {
                    assert(exists|k: int|
                        i <= k < i + rfc3339_of(t).len() && !plain_char(#[trigger] s@[k]));
                    let k = choose|k: int|
                        i <= k < i + rfc3339_of(t).len() && !plain_char(#[trigger] s@[k]);
                    assert(s@[k] == rfc3339_of(t)[k - i]);
                },
            }
        }
    }
    match scanned {
        Some((w, j)) => {
            match parse_rfc3339(w.as_str()) {
                Some(t) => {
                    if 0 <= t && t <= MAX_TIMESTAMP {
                        let back = format_rfc3339(t);
                        if back == w {
                            Some((t, j))
                        } else {
                            None
                        }
                    } else {
                        None
                    }
                },
                None => None,
            }
        },
        None => None,
    }
}

/// Transfers one character of a matched run to the enclosing text.
proof fn lemma_lit_at_index(s: Seq<char>, i: int, lit: Seq<char>, m: int)
    requires
        0 <= i,
        lit_at(s, i, lit),
        0 <= m < lit.len(),
    ensures
        s[i + m] == lit[m],
{
    let sub = s.subrange(i, i + lit.len() as int);
    assert(sub == lit);
    assert(sub[m] == s[i + m]);
    assert(sub[m] == lit[m]);
}

/// Item lists that agree on their first `k` items render those items alike.
proof fn lemma_items_agree(ss1: Seq<Seq<char>>, ss2: Seq<Seq<char>>, k: int)
    requires
        0 <= k <= ss1.len(),
        k <= ss2.len(),
        forall|m: int| 0 <= m < k ==> ss1[m] == ss2[m],
    ensures
        spec_scope_items(ss1, k) == spec_scope_items(ss2, k),
    decreases k,
{
    if k > 0 {
        lemma_items_agree(ss1, ss2, k - 1);
    }
}

/// One decoded item extends the accumulated list text by its quoted form and
/// the separator that follows it.
proof fn lemma_accumulate_item(
    s: Seq<char>,
    i: int,
    cur: int,
    j2: int,
    old_items: Seq<Seq<char>>,
    new_items: Seq<Seq<char>>,
    f: Seq<char>,
    tail: Seq<char>,
)
    requires
        0 <= i < cur < j2 < s.len(),
        new_items == old_items.push(f),
        s.subrange(i, cur) == "["@ + spec_scope_items(old_items, old_items.len() as int) + (if
            old_items.len() > 0 {
            ","@
        } else {
            Seq::<char>::empty()
        }),
        s.subrange(cur, j2) == spec_render_string(f),
        tail.len() == 1,
        s[j2] == tail[0],
    ensures
        s.subrange(i, j2 + 1) == "["@ + spec_scope_items(new_items, new_items.len() as int)
            + tail,
{
    reveal_strlit("[");
    reveal_strlit(",");
    let k = old_items.len() as int;
    lemma_items_agree(old_items, new_items, k);
    lemma_qstr(f);
    assert(new_items[k] == f);
    if k == 0 {
        assert(spec_scope_items(new_items, 1) == spec_render_string(f));
    } else {
        assert(spec_scope_items(new_items, k + 1) == spec_scope_items(new_items, k) + ","@
            + spec_render_string(f));
    }
    assert forall|m: int| 0 <= m < j2 + 1 - i implies #[trigger] s.subrange(i, j2 + 1)[m] == s[i
        + m] by {}
    assert forall|m: int| 0 <= m < cur - i implies s[i + m] == #[trigger] s.subrange(i, cur)[m]
        by {}
    assert forall|m: int| 0 <= m < j2 - cur implies s[cur + m] == #[trigger] s.subrange(
        cur,
        j2,
    )[m] by {}
    assert(new_items.len() == k + 1);
    assert(spec_scope_items(old_items, k) == spec_scope_items(new_items, k));
    assert(spec_render_string(f).len() == f.len() + 2);
    if k == 0 {
        assert(cur - i == 1);
        assert(spec_scope_items(new_items, 1).len() == f.len() + 2);
    } else {
        assert((if old_items.len() > 0 {
            ","@
        } else {
            Seq::<char>::empty()
        }) == ","@);
        assert(s.subrange(i, cur) == "["@ + spec_scope_items(old_items, k) + ","@);
        assert(s.subrange(i, cur).len() == cur - i);
        assert(("["@ + spec_scope_items(old_items, k) + ","@).len() == 1 + spec_scope_items(
            old_items,
            k,
        ).len() + 1);
        assert(cur - i == 1 + spec_scope_items(new_items, k).len() + 1);
        assert(spec_scope_items(new_items, k + 1).len() == spec_scope_items(new_items, k).len()
            + 1 + f.len() + 2);
    }
    let rhs = "["@ + spec_scope_items(new_items, k + 1) + tail;
    assert(rhs.len() == j2 + 1 - i);
    assert forall|m: int| 0 <= m < j2 + 1 - i implies #[trigger] s.subrange(i, j2 + 1)[m]
        == rhs[m] by {
        assert(s.subrange(i, j2 + 1)[m] == s[i + m]);
        if m < cur - i {
            assert(s[i + m] == s.subrange(i, cur)[m]);
        } else if m < j2 - i {
            assert(s[i + m] == s.subrange(cur, j2)[m - (cur - i)]);
            assert(s.subrange(cur, j2)[m - (cur - i)] == spec_render_string(f)[m - (cur - i)]);
        } else {
            assert(s[i + m] == tail[0]);
        }
    }
    assert(s.subrange(i, j2 + 1) =~= rhs);
}

/// The value of a decoded scopes field.
pub open spec fn opt_scopes_view(os: Option<Vec<String>>) -> Option<Seq<Seq<char>>> {
    match os {
        Some(v) => Some(v.deep_view()),
        None => None,
    }
}

/// Plain text in every item of an optional scope list.
pub open spec fn scopes_plain(os: Option<Seq<Seq<char>>>) -> bool {
    os matches Some(ss) ==> forall|i: int| 0 <= i < ss.len() ==> plain_str(#[trigger] ss[i])
}

/// Decodes the scopes field: `null`, or a bracketed list of quoted plain
/// names. Accepts exactly the canonical renderings and steps past what it
/// decoded.
#[verifier::rlimit(100)]
fn parse_scopes(s: &str, i: usize) -> (r: Option<(Option<Vec<String>>, usize)>)
    requires
        i <= s@.len(),
    ensures
        r matches Some((os, j)) ==> {
            &&& i < j <= s@.len()
            &&& j == i + spec_render_scopes(opt_scopes_view(os)).len()
            &&& s@.subrange(i as int, j as int) == spec_render_scopes(opt_scopes_view(os))
            &&& scopes_plain(opt_scopes_view(os))
        },
        forall|os: Option<Seq<Seq<char>>>|
            scopes_plain(os) && lit_at(s@, i as int, spec_render_scopes(os)) ==> (
            r matches Some((ros, j)) && opt_scopes_view(ros) == os && j == i + spec_render_scopes(
                os,
            ).len()),
{
    let n = s.unicode_len();
    if i >= n {
        proof {
            assert forall|os: Option<Seq<Seq<char>>>|
                scopes_plain(os) && lit_at(s@, i as int, spec_render_scopes(os)) implies false by {
                lemma_scopes_first_char(os);
            }
        }
        return None;
    }
    let c0 = s.get_char(i);
    if c0 == 'n' {
        match expect_lit(s, i, "null") {
            Some(j) => {
                proof {
                    reveal_strlit("null");
                    assert(s@.subrange(i as int, j as int) == spec_render_scopes(
                        opt_scopes_view(None),
                    ));
                    assert forall|os: Option<Seq<Seq<char>>>|
                        scopes_plain(os) && lit_at(s@, i as int, spec_render_scopes(os)) implies (
                    opt_scopes_view(None) == os && j == i + spec_render_scopes(os).len()) by {
                        lemma_scopes_first_char(os);
                        if os is Some {
                            lemma_lit_at_index(s@, i as int, spec_render_scopes(os), 0);
                        }
                    }
                }
                return Some((None, j));
            },
            None => {
                proof {
                    assert forall|os: Option<Seq<Seq<char>>>|
                        scopes_plain(os) && lit_at(s@, i as int, spec_render_scopes(os))
                        implies false by {
                        lemma_scopes_first_char(os);
                        if os is Some {
                            lemma_lit_at_index(s@, i as int, spec_render_scopes(os), 0);
                        }
                    }
                }
                return None;
            },
        }
    }
    if c0 != '[' {
        proof {
            assert forall|os: Option<Seq<Seq<char>>>|
                scopes_plain(os) && lit_at(s@, i as int, spec_render_scopes(os)) implies false by {
                lemma_scopes_first_char(os);
                lemma_lit_at_index(s@, i as int, spec_render_scopes(os), 0);
            }
        }
        return None;
    }
    // An opening bracket: the list's end is its matching `]`.
    if i + 1 < n && s.get_char(i + 1) == ']' {
        let empty: Vec<String> = Vec::new();
        proof {
            reveal_strlit("[");
            reveal_strlit("]");
            assert(empty.deep_view() =~= Seq::<Seq<char>>::empty());
            lemma_scopes_empty(empty.deep_view());
            assert(s@.subrange(i as int, i + 2) =~= spec_render_scopes(
                opt_scopes_view(Some(empty)),
            ));
            assert forall|os: Option<Seq<Seq<char>>>|
                scopes_plain(os) && lit_at(s@, i as int, spec_render_scopes(os)) implies (
            opt_scopes_view(Some(empty)) == os && i + 2 == i + spec_render_scopes(os).len()) by {
                lemma_scopes_first_char(os);
                lemma_lit_at_index(s@, i as int, spec_render_scopes(os), 0);
                lemma_lit_at_index(s@, i as int, spec_render_scopes(os), 1);
                match os {
                    Some(ss) => {
                        if ss.len() > 0 {
                            lemma_scopes_layout(ss, 0);
                            assert(spec_render_scopes(os)[1] == '"');
                            assert(false);
                        }
                        lemma_scopes_empty(ss);
                        assert(ss =~= empty.deep_view());
                    },
                    None => {
                        assert(false);
                    },
                }
            }
        }
        return Some((Some(empty), i + 2));
    }
    let mut items: Vec<String> = Vec::new();
    let mut cur: usize = i + 1;
    proof {
        reveal_strlit("[");
        assert(items.deep_view() =~= Seq::<Seq<char>>::empty());
        assert(s@.subrange(i as int, cur as int) =~= "["@ + spec_scope_items(
            items.deep_view(),
            0,
        ));
        assert forall|ss: Seq<Seq<char>>|
            #[trigger] lit_at(s@, i as int, spec_render_scopes(Some(ss))) && (forall|m: int|
                0 <= m < ss.len() ==> plain_str(#[trigger] ss[m])) implies {
            &&& 0 < ss.len()
            &&& items.deep_view() == ss.take(0)
            &&& cur == i + item_off(ss, 0)
        } by {
            lemma_scopes_first_char(Some(ss));
            if ss.len() == 0 {
                lemma_scopes_empty(ss);
                lemma_lit_at_index(s@, i as int, spec_render_scopes(Some(ss)), 1);
                assert(s@[i + 1] == ']');
                assert(false);
            }
            assert(items.deep_view() =~= ss.take(0));
        }
    }
    loop
        invariant
            n == s@.len(),
            i < cur <= n,
            i < n,
            s@[i as int] == '[',
            items.deep_view().len() == items@.len(),
            forall|m: int| 0 <= m < items@.len() ==> plain_str(#[trigger] items.deep_view()[m]),
            s@.subrange(i as int, cur as int) == "["@ + spec_scope_items(
                items.deep_view(),
                items@.len() as int,
            ) + (if items@.len() > 0 {
                ","@
            } else {
                Seq::<char>::empty()
            }),
            forall|ss: Seq<Seq<char>>|
                #[trigger] lit_at(s@, i as int, spec_render_scopes(Some(ss))) && (forall|m: int|
                    0 <= m < ss.len() ==> plain_str(#[trigger] ss[m])) ==> {
                    &&& items@.len() < ss.len()
                    &&& items.deep_view() == ss.take(items@.len() as int)
                    &&& cur == i + item_off(ss, items@.len() as int)
                },
        decreases n - cur,
    {
        let ghost k = items@.len() as int;
        if cur >= n {
            proof {
                assert forall|os: Option<Seq<Seq<char>>>|
                    scopes_plain(os) && lit_at(s@, i as int, spec_render_scopes(os))
                    implies false by {
                    lemma_scopes_first_char(os);
                    match os {
                        Some(ss) => {
                            assert(lit_at(s@, i as int, spec_render_scopes(Some(ss))));
                            lemma_scopes_layout(ss, k);
                        },
                        None => {
                            lemma_lit_at_index(s@, i as int, spec_render_scopes(os), 0);
                        },
                    }
                }
            }
            return None;
        }
        let c = s.get_char(cur);
        if c != '"' {
            proof {
                assert forall|os: Option<Seq<Seq<char>>>|
                    scopes_plain(os) && lit_at(s@, i as int, spec_render_scopes(os))
                    implies false by {
                    lemma_scopes_first_char(os);
                    match os {
                        Some(ss) => {
                            assert(lit_at(s@, i as int, spec_render_scopes(Some(ss))));
                            lemma_scopes_layout(ss, k);
                            lemma_lit_at_index(
                                s@,
                                i as int,
                                spec_render_scopes(os),
                                item_off(ss, k),
                            );
                        },
                        None => {
                            lemma_lit_at_index(s@, i as int, spec_render_scopes(os), 0);
                        },
                    }
                }
            }
            return None;
        }
        let scanned = scan_quoted(s, cur + 1);
        proof {
            assert forall|ss: Seq<Seq<char>>|
                #[trigger] lit_at(s@, i as int, spec_render_scopes(Some(ss))) && (forall|m: int|
                    0 <= m < ss.len() ==> plain_str(#[trigger] ss[m])) implies (
            scanned matches Some((f, j2)) && f@ == ss[k] && j2 == cur + 1 + ss[k].len() + 1) by {
                lemma_scopes_layout(ss, k);
                let ls = spec_render_scopes(Some(ss));
                assert(s@.subrange(i + item_off(ss, k) + 1, i + item_off(ss, k) + 1 + ss[k].len()
                    as int) =~= ss[k]) by {
                    assert forall|m: int| 0 <= m < ss[k].len() implies s@[i + item_off(ss, k) + 1
                        + m] == ss[k][m] by {
                        lemma_lit_at_index(s@, i as int, ls, item_off(ss, k) + 1 + m);
                        assert(ls.subrange(
                            item_off(ss, k) + 1,
                            item_off(ss, k) + 1 + ss[k].len() as int,
                        )[m] == ls[item_off(ss, k) + 1 + m]);
                    }
                }
                lemma_lit_at_index(s@, i as int, ls, item_off(ss, k) + 1 + ss[k].len() as int);
                match scanned {
                    Some((f, j2)) => {
                        lemma_scan_quoted_unique(s@, cur as int + 1, ss[k], f@, j2 as int);
                    },
                    None => {
                        assert(s@[cur + 1 + ss[k].len()] == '"');
                        let bad = choose|b: int|
                            cur + 1 <= b < cur + 1 + ss[k].len() && !plain_char(#[trigger] s@[b]);
                        assert(s@.subrange(cur as int + 1, cur + 1 + ss[k].len() as int)[bad - (cur
                            + 1)] == s@[bad]);
                    },
                }
            }
        }
        match scanned {
            None => {
                proof {
                    assert forall|os: Option<Seq<Seq<char>>>|
                        scopes_plain(os) && lit_at(s@, i as int, spec_render_scopes(os))
                        implies false by {
                        match os {
                            Some(ss) => {
                                assert(lit_at(s@, i as int, spec_render_scopes(Some(ss))));
                            },
                            None => {
                                lemma_scopes_first_char(os);
                                lemma_lit_at_index(s@, i as int, spec_render_scopes(os), 0);
                            },
                        }
                    }
                }
                return None;
            },
            Some((f, j2)) => {
                let ghost old_items = items.deep_view();
                items.push(f);
                proof {
                    assert(items.deep_view() =~= old_items.push(f@));
                }
                if j2 >= n {
                    proof {
                        assert forall|os: Option<Seq<Seq<char>>>|
                            scopes_plain(os) && lit_at(s@, i as int, spec_render_scopes(os))
                            implies false by {
                            lemma_scopes_first_char(os);
                            match os {
                                Some(ss) => {
                                    assert(lit_at(s@, i as int, spec_render_scopes(Some(ss))));
                                    lemma_scopes_layout(ss, k);
                                },
                                None => {
                                    lemma_lit_at_index(s@, i as int, spec_render_scopes(os), 0);
                                },
                            }
                        }
                    }
                    return None;
                }
                let c2 = s.get_char(j2);
                if c2 == ',' {
                    proof {
                        reveal_strlit(",");
                        assert(s@.subrange(cur as int, j2 as int) =~= spec_render_string(f@)) by {
                            lemma_qstr(f@);
                        }
                        lemma_accumulate_item(
                            s@,
                            i as int,
                            cur as int,
                            j2 as int,
                            old_items,
                            items.deep_view(),
                            f@,
                            ","@,
                        );
                        assert forall|ss: Seq<Seq<char>>|
                            #[trigger] lit_at(s@, i as int, spec_render_scopes(Some(ss))) && (
                        forall|m: int| 0 <= m < ss.len() ==> plain_str(#[trigger] ss[m])) implies {
                            &&& k + 1 < ss.len()
                            &&& items.deep_view() == ss.take(k + 1)
                            &&& j2 + 1 == i + item_off(ss, k + 1)
                        } by {
                            lemma_scopes_layout(ss, k);
                            if k + 1 == ss.len() {
                                lemma_lit_at_index(
                                    s@,
                                    i as int,
                                    spec_render_scopes(Some(ss)),
                                    item_off(ss, k) + 2 + ss[k].len() as int,
                                );
                                assert(false);
                            }
                            assert(items.deep_view() =~= ss.take(k + 1));
                        }
                    }
                    cur = j2 + 1;
                } else if c2 == ']' {
                    proof {
                        reveal_strlit("[");
                        reveal_strlit("]");
                        let fin = items.deep_view();
                        assert(s@.subrange(cur as int, j2 as int) =~= spec_render_string(f@)) by {
                            lemma_qstr(f@);
                        }
                        lemma_accumulate_item(
                            s@,
                            i as int,
                            cur as int,
                            j2 as int,
                            old_items,
                            fin,
                            f@,
                            "]"@,
                        );
                        assert(s@.subrange(i as int, j2 + 1) == spec_render_scopes(
                            opt_scopes_view(Some(items)),
                        ));
                        assert forall|os: Option<Seq<Seq<char>>>|
                            scopes_plain(os) && lit_at(s@, i as int, spec_render_scopes(os))
                            implies (opt_scopes_view(Some(items)) == os && j2 + 1 == i
                            + spec_render_scopes(os).len()) by {
                            lemma_scopes_first_char(os);
                            match os {
                                Some(ss) => {
                                    assert(lit_at(s@, i as int, spec_render_scopes(Some(ss))));
                                    lemma_scopes_layout(ss, k);
                                    if k + 1 < ss.len() {
                                        lemma_lit_at_index(
                                            s@,
                                            i as int,
                                            spec_render_scopes(Some(ss)),
                                            item_off(ss, k) + 2 + ss[k].len() as int,
                                        );
                                        assert(false);
                                    }
                                    assert(items.deep_view() =~= ss);
                                },
                                None => {
                                    lemma_lit_at_index(s@, i as int, spec_render_scopes(os), 0);
                                },
                            }
                        }
                    }
                    return Some((Some(items), j2 + 1));
                } else {
                    proof {
                        assert forall|os: Option<Seq<Seq<char>>>|
                            scopes_plain(os) && lit_at(s@, i as int, spec_render_scopes(os))
                            implies false by {
                            lemma_scopes_first_char(os);
                            match os {
                                Some(ss) => {
                                    assert(lit_at(s@, i as int, spec_render_scopes(Some(ss))));
                                    lemma_scopes_layout(ss, k);
                                    lemma_lit_at_index(
                                        s@,
                                        i as int,
                                        spec_render_scopes(Some(ss)),
                                        item_off(ss, k) + 2 + ss[k].len() as int,
                                    );
                                },
                                None => {
                                    lemma_lit_at_index(s@, i as int, spec_render_scopes(os), 0);
                                },
                            }
                        }
                    }
                    return None;
                }
            },
        }
    }
}

/// Offset of the access token's text in the rendering.
pub open spec fn o_access(v: TokenView) -> int {
    "{\"access_token\":\""@.len() as int
}

/// Offset of the literal that closes the access token and names the refresh
/// token field.
pub open spec fn o_lit_refresh(v: TokenView) -> int {
    o_access(v) + v.access_token.len()
}

/// Offset of the refresh token field's value.
pub open spec fn o_refresh(v: TokenView) -> int {
    o_lit_refresh(v) + "\",\"refresh_token\":"@.len()
}

/// Offset of the literal that names the creation instant.
pub open spec fn o_lit_created(v: TokenView) -> int {
    o_refresh(v) + spec_render_opt_string(v.refresh_token).len()
}

/// Offset of the creation instant's text.
pub open spec fn o_created(v: TokenView) -> int {
    o_lit_created(v) + ",\"created_at\":\""@.len()
}

/// Offset of the literal that names the expiry instant.
pub open spec fn o_lit_valid(v: TokenView) -> int {
    o_created(v) + rfc3339_of(v.created_at).len()
}

/// Offset of the expiry instant's text.
pub open spec fn o_valid(v: TokenView) -> int {
    o_lit_valid(v) + "\",\"valid_till\":\""@.len()
}

/// Offset of the literal that names the scopes field.
pub open spec fn o_lit_scopes(v: TokenView) -> int {
    o_valid(v) + rfc3339_of(v.valid_till).len()
}

/// Offset of the scopes field's value.
pub open spec fn o_scopes(v: TokenView) -> int {
    o_lit_scopes(v) + "\",\"scopes\":"@.len()
}

/// Offset of the closing brace.
pub open spec fn o_close(v: TokenView) -> int {
    o_scopes(v) + spec_render_scopes(v.scopes).len()
}

/// Length of the whole rendering.
pub open spec fn o_end(v: TokenView) -> int {
    o_close(v) + "}"@.len()
}


/// The rendering split at every field boundary.
proof fn lemma_render_parts(v: TokenView)
    ensures
        spec_render_token(v).len() == o_end(v),
        spec_render_token(v).subrange(0, o_access(v)) == "{\"access_token\":\""@,
        spec_render_token(v).subrange(o_access(v), o_lit_refresh(v)) == v.access_token,
        spec_render_token(v).subrange(o_lit_refresh(v), o_refresh(v))
            == "\",\"refresh_token\":"@,
        spec_render_token(v).subrange(o_refresh(v), o_lit_created(v)) == spec_render_opt_string(
            v.refresh_token,
        ),
        spec_render_token(v).subrange(o_lit_created(v), o_created(v)) == ",\"created_at\":\""@,
        spec_render_token(v).subrange(o_created(v), o_lit_valid(v)) == rfc3339_of(v.created_at),
        spec_render_token(v).subrange(o_lit_valid(v), o_valid(v)) == "\",\"valid_till\":\""@,
        spec_render_token(v).subrange(o_valid(v), o_lit_scopes(v)) == rfc3339_of(v.valid_till),
        spec_render_token(v).subrange(o_lit_scopes(v), o_scopes(v)) == "\",\"scopes\":"@,
        spec_render_token(v).subrange(o_scopes(v), o_close(v)) == spec_render_scopes(v.scopes),
        spec_render_token(v).subrange(o_close(v), o_end(v)) == "}"@,
{
    let s = spec_render_token(v);
    assert(s.subrange(0, o_access(v)) =~= "{\"access_token\":\""@);
    assert(s.subrange(o_access(v), o_lit_refresh(v)) =~= v.access_token);
    assert(s.subrange(o_lit_refresh(v), o_refresh(v)) =~= "\",\"refresh_token\":"@);
    assert(s.subrange(o_refresh(v), o_lit_created(v)) =~= spec_render_opt_string(v.refresh_token));
    assert(s.subrange(o_lit_created(v), o_created(v)) =~= ",\"created_at\":\""@);
    assert(s.subrange(o_created(v), o_lit_valid(v)) =~= rfc3339_of(v.created_at));
    assert(s.subrange(o_lit_valid(v), o_valid(v)) =~= "\",\"valid_till\":\""@);
    assert(s.subrange(o_valid(v), o_lit_scopes(v)) =~= rfc3339_of(v.valid_till));
    assert(s.subrange(o_lit_scopes(v), o_scopes(v)) =~= "\",\"scopes\":"@);
    assert(s.subrange(o_scopes(v), o_close(v)) =~= spec_render_scopes(v.scopes));
    assert(s.subrange(o_close(v), o_end(v)) =~= "}"@);
}

/// The boundary characters of the rendering, and how each field's offset
/// follows from the previous one as a decoder steps over the text.
proof fn lemma_render_boundaries(v: TokenView)
    ensures
        0 < o_access(v) <= o_lit_refresh(v) < o_refresh(v) <= o_lit_created(v) < o_created(v)
            <= o_lit_valid(v) < o_valid(v) <= o_lit_scopes(v) < o_scopes(v) <= o_close(v)
            < o_end(v),
        o_access(v) == "{\"access_token\":\""@.len(),
        o_refresh(v) == o_lit_refresh(v) + 1 + ",\"refresh_token\":"@.len(),
        o_created(v) == o_lit_created(v) + ",\"created_at\":\""@.len(),
        o_valid(v) == o_lit_valid(v) + 1 + ",\"valid_till\":\""@.len(),
        o_scopes(v) == o_lit_scopes(v) + 1 + ",\"scopes\":"@.len(),
        o_end(v) == o_close(v) + 1,
        spec_render_token(v)[o_lit_refresh(v)] == '"',
        spec_render_token(v).subrange(o_lit_refresh(v) + 1, o_refresh(v))
            == ",\"refresh_token\":"@,
        spec_render_token(v)[o_lit_valid(v)] == '"',
        spec_render_token(v).subrange(o_lit_valid(v) + 1, o_valid(v)) == ",\"valid_till\":\""@,
        spec_render_token(v)[o_lit_scopes(v)] == '"',
        spec_render_token(v).subrange(o_lit_scopes(v) + 1, o_scopes(v)) == ",\"scopes\":"@,
        v.refresh_token matches Some(rt) ==> spec_render_token(v)[o_refresh(v)] == '"'
            && spec_render_token(v).subrange(o_refresh(v) + 1, o_lit_created(v) - 1) == rt
            && spec_render_token(v)[o_lit_created(v) - 1] == '"',
        v.refresh_token is None ==> spec_render_token(v).subrange(o_refresh(v), o_lit_created(v))
            == "null"@ && spec_render_token(v)[o_refresh(v)] == 'n',
{
    lemma_render_parts(v);
    let s = spec_render_token(v);
    reveal_strlit("{\"access_token\":\"");
    reveal_strlit("\",\"refresh_token\":");
    reveal_strlit(",\"refresh_token\":");
    reveal_strlit(",\"created_at\":\"");
    reveal_strlit("\",\"valid_till\":\"");
    reveal_strlit(",\"valid_till\":\"");
    reveal_strlit("\",\"scopes\":");
    reveal_strlit(",\"scopes\":");
    reveal_strlit("}");
    reveal_strlit("null");
    lemma_lit_at_index_free(s, o_lit_refresh(v), o_refresh(v), "\",\"refresh_token\":"@, 0);
    assert(s.subrange(o_lit_refresh(v) + 1, o_refresh(v)) =~= ",\"refresh_token\":"@);
    lemma_lit_at_index_free(s, o_lit_valid(v), o_valid(v), "\",\"valid_till\":\""@, 0);
    assert(s.subrange(o_lit_valid(v) + 1, o_valid(v)) =~= ",\"valid_till\":\""@);
    lemma_lit_at_index_free(s, o_lit_scopes(v), o_scopes(v), "\",\"scopes\":"@, 0);
    assert(s.subrange(o_lit_scopes(v) + 1, o_scopes(v)) =~= ",\"scopes\":"@);
    match v.refresh_token {
        Some(rt) => {
            lemma_qstr(rt);
            lemma_lit_at_index_free(
                s,
                o_refresh(v),
                o_lit_created(v),
                spec_render_opt_string(v.refresh_token),
                0,
            );
            assert(s.subrange(o_refresh(v) + 1, o_lit_created(v) - 1) =~= rt);
            lemma_lit_at_index_free(
                s,
                o_refresh(v),
                o_lit_created(v),
                spec_render_opt_string(v.refresh_token),
                rt.len() as int + 1,
            );
        },
        None => {
            lemma_lit_at_index_free(
                s,
                o_refresh(v),
                o_lit_created(v),
                spec_render_opt_string(v.refresh_token),
                0,
            );
        },
    }
}

/// Transfers one character of a known piece of the text: where
/// `s.subrange(a, b)` is `piece`, the character at `a + m` is `piece[m]`.
proof fn lemma_lit_at_index_free(s: Seq<char>, a: int, b: int, piece: Seq<char>, m: int)
    requires
        0 <= a <= b <= s.len(),
        s.subrange(a, b) == piece,
        0 <= m < piece.len(),
    ensures
        s[a + m] == piece[m],
        b - a == piece.len(),
{
    assert(s.subrange(a, b)[m] == s[a + m]);
}

/// Stitches a fully decoded text back together: a text whose pieces are the
/// rendered fields of `v` at consecutive offsets is the rendering of `v`.
#[verifier::rlimit(100)]
proof fn lemma_reassemble(
    s: Seq<char>,
    v: TokenView,
    i1: int,
    i2: int,
    i3: int,
    i4: int,
    i5: int,
    i6: int,
    i7: int,
    i8: int,
    i9: int,
    i10: int,
    i11: int,
)
    requires
        i1 == "{\"access_token\":\""@.len(),
        lit_at(s, 0, "{\"access_token\":\""@),
        i1 < i2,
        v.access_token == s.subrange(i1, i2 - 1),
        s[i2 - 1] == '"',
        i3 == i2 + ",\"refresh_token\":"@.len(),
        lit_at(s, i2, ",\"refresh_token\":"@),
        s.subrange(i3, i4) == spec_render_opt_string(v.refresh_token),
        i4 == i3 + spec_render_opt_string(v.refresh_token).len(),
        i5 == i4 + ",\"created_at\":\""@.len(),
        lit_at(s, i4, ",\"created_at\":\""@),
        i5 < i6,
        s.subrange(i5, i6 - 1) == rfc3339_of(v.created_at),
        s[i6 - 1] == '"',
        i6 == i5 + rfc3339_of(v.created_at).len() + 1,
        i7 == i6 + ",\"valid_till\":\""@.len(),
        lit_at(s, i6, ",\"valid_till\":\""@),
        i7 < i8,
        s.subrange(i7, i8 - 1) == rfc3339_of(v.valid_till),
        s[i8 - 1] == '"',
        i8 == i7 + rfc3339_of(v.valid_till).len() + 1,
        i9 == i8 + ",\"scopes\":"@.len(),
        lit_at(s, i8, ",\"scopes\":"@),
        s.subrange(i9, i10) == spec_render_scopes(v.scopes),
        i10 == i9 + spec_render_scopes(v.scopes).len(),
        lit_at(s, i10, "}"@),
        i11 == i10 + "}"@.len(),
        i11 == s.len(),
    ensures
        s == spec_render_token(v),
{
    lemma_render_parts(v);
    lemma_render_boundaries(v);
    let rt = spec_render_token(v);
    assert(i1 == o_access(v));
    assert(i2 - 1 == o_lit_refresh(v));
    assert(i3 == o_refresh(v));
    assert(i4 == o_lit_created(v));
    assert(i5 == o_created(v));
    assert(i6 - 1 == o_lit_valid(v));
    assert(i7 == o_valid(v));
    assert(i8 - 1 == o_lit_scopes(v));
    assert(i9 == o_scopes(v));
    assert(i10 == o_close(v));
    assert(i11 == o_end(v));
    assert forall|m: int| 0 <= m < s.len() implies s[m] == rt[m] by {
        if m < i1 {
            assert(s.subrange(0, i1)[m] == s[m]);
            assert(rt.subrange(0, o_access(v))[m] == rt[m]);
        } else if m < i2 - 1 {
            assert(s.subrange(i1, i2 - 1)[m - i1] == s[m]);
            assert(rt.subrange(o_access(v), o_lit_refresh(v))[m - i1] == rt[m]);
        } else if m == i2 - 1 {
        } else if m < i3 {
            assert(s.subrange(i2, i2 + ",\"refresh_token\":"@.len() as int)[m - i2] == s[m]);
            assert(rt.subrange(o_lit_refresh(v) + 1, o_refresh(v))[m - i2] == rt[m]);
        } else if m < i4 {
            assert(s.subrange(i3, i4)[m - i3] == s[m]);
            assert(rt.subrange(o_refresh(v), o_lit_created(v))[m - i3] == rt[m]);
        } else if m < i5 {
            assert(s.subrange(i4, i4 + ",\"created_at\":\""@.len() as int)[m - i4] == s[m]);
            assert(rt.subrange(o_lit_created(v), o_created(v))[m - i4] == rt[m]);
        } else if m < i6 - 1 {
            assert(s.subrange(i5, i6 - 1)[m - i5] == s[m]);
            assert(rt.subrange(o_created(v), o_lit_valid(v))[m - i5] == rt[m]);
        } else if m == i6 - 1 {
        } else if m < i7 {
            assert(s.subrange(i6, i6 + ",\"valid_till\":\""@.len() as int)[m - i6] == s[m]);
            assert(rt.subrange(o_lit_valid(v) + 1, o_valid(v))[m - i6] == rt[m]);
        } else if m < i8 - 1 {
            assert(s.subrange(i7, i8 - 1)[m - i7] == s[m]);
            assert(rt.subrange(o_valid(v), o_lit_scopes(v))[m - i7] == rt[m]);
        } else if m == i8 - 1 {
        } else if m < i9 {
            assert(s.subrange(i8, i8 + ",\"scopes\":"@.len() as int)[m - i8] == s[m]);
            assert(rt.subrange(o_lit_scopes(v) + 1, o_scopes(v))[m - i8] == rt[m]);
        } else if m < i10 {
            assert(s.subrange(i9, i10)[m - i9] == s[m]);
            assert(rt.subrange(o_scopes(v), o_close(v))[m - i9] == rt[m]);
        } else {
            assert(s.subrange(i10, i11)[m - i10] == s[m]);
            assert(rt.subrange(o_close(v), o_end(v))[m - i10] == rt[m]);
        }
    }
    assert(s =~= rt);
}

/// The hypothesis under which a text must decode: it is the canonical
/// rendering of a well-formed record whose instants render to the fixed
/// shape.
pub open spec fn renders_to(s: Seq<char>, v: TokenView) -> bool {
    token_view_wf(v) && instants_render_wf(v) && s == spec_render_token(v)
}

/// Decodes the leading fields of a record: the access token, the refresh
/// token and both instants, handing back each decoded value together with
/// the position just past it.
#[verifier::rlimit(100)]
fn parse_head(s: &str) -> (r: Option<(String, usize, Option<String>, usize, i64, usize, i64, usize)>)
    ensures
        r matches Some((access, i2, refresh, i4, created, i6, till, i8)) ==> {
            &&& lit_at(s@, 0, "{\"access_token\":\""@)
            &&& "{\"access_token\":\""@.len() < i2 <= s@.len()
            &&& access@ == s@.subrange("{\"access_token\":\""@.len() as int, i2 - 1)
            &&& s@[i2 - 1] == '"'
            &&& plain_str(access@)
            &&& lit_at(s@, i2 as int, ",\"refresh_token\":"@)
            &&& s@.subrange(i2 + ",\"refresh_token\":"@.len(), i4 as int)
                == spec_render_opt_string(opt_string_view(refresh))
            &&& i4 == i2 + ",\"refresh_token\":"@.len() + spec_render_opt_string(
                opt_string_view(refresh),
            ).len()
            &&& (opt_string_view(refresh) matches Some(f) ==> plain_str(f))
            &&& lit_at(s@, i4 as int, ",\"created_at\":\""@)
            &&& i4 + ",\"created_at\":\""@.len() < i6 <= s@.len()
            &&& s@.subrange(i4 + ",\"created_at\":\""@.len(), i6 - 1) == rfc3339_of(created)
            &&& s@[i6 - 1] == '"'
            &&& i6 == i4 + ",\"created_at\":\""@.len() + rfc3339_of(created).len() + 1
            &&& ts_in_range(created)
            &&& rfc3339_wf(rfc3339_of(created))
            &&& lit_at(s@, i6 as int, ",\"valid_till\":\""@)
            &&& i6 + ",\"valid_till\":\""@.len() < i8 <= s@.len()
            &&& s@.subrange(i6 + ",\"valid_till\":\""@.len(), i8 - 1) == rfc3339_of(till)
            &&& s@[i8 - 1] == '"'
            &&& i8 == i6 + ",\"valid_till\":\""@.len() + rfc3339_of(till).len() + 1
            &&& ts_in_range(till)
            &&& rfc3339_wf(rfc3339_of(till))
        },
        forall|v: TokenView| #[trigger] renders_to(s@, v) ==> (r matches Some(
            (access, i2, refresh, i4, created, i6, till, i8),
        ) && access@ == v.access_token && i2 == o_lit_refresh(v) + 1 && opt_string_view(refresh)
            == v.refresh_token && i4 == o_lit_created(v) && created == v.created_at && i6
            == o_lit_valid(v) + 1 && till == v.valid_till && i8 == o_lit_scopes(v) + 1),
{
    let i1 = match expect_lit(s, 0, "{\"access_token\":\"") {
        Some(j) => j,
        None => {
            proof {
                assert forall|v: TokenView| #[trigger] renders_to(s@, v) implies false by {
                    lemma_render_parts(v);
                    lemma_render_boundaries(v);
                    assert(lit_at(s@, 0, "{\"access_token\":\""@));
                }
            }
            return None;
        },
    };
    let (access, i2) = match scan_quoted(s, i1) {
        Some(p) => p,
        None => {
            proof {
                assert forall|v: TokenView| #[trigger] renders_to(s@, v) implies false by {
                    lemma_render_parts(v);
                    lemma_render_boundaries(v);
                    assert(s@[o_lit_refresh(v)] == '"');
                    let b = choose|b: int|
                        i1 <= b < o_lit_refresh(v) && !plain_char(#[trigger] s@[b]);
                    assert(s@.subrange(o_access(v), o_lit_refresh(v))[b - o_access(v)] == s@[b]);
                }
            }
            return None;
        },
    };
    proof {
        assert forall|v: TokenView| #[trigger] renders_to(s@, v) implies access@
            == v.access_token && i2 == o_lit_refresh(v) + 1 by {
            lemma_render_parts(v);
            lemma_render_boundaries(v);
            lemma_scan_quoted_unique(s@, i1 as int, v.access_token, access@, i2 as int);
        }
    }
    let i3 = match expect_lit(s, i2, ",\"refresh_token\":") {
        Some(j) => j,
        None => {
            proof {
                assert forall|v: TokenView| #[trigger] renders_to(s@, v) implies false by {
                    lemma_render_boundaries(v);
                    assert(lit_at(s@, i2 as int, ",\"refresh_token\":"@));
                }
            }
            return None;
        },
    };
    proof {
        assert forall|v: TokenView| #[trigger] renders_to(s@, v) implies i3 == o_refresh(v) by {
            lemma_render_boundaries(v);
        }
    }
    let (refresh, i4) = match parse_opt_string(s, i3) {
        Some(p) => p,
        None => {
            proof {
                assert forall|v: TokenView| #[trigger] renders_to(s@, v) implies false by {
                    lemma_render_parts(v);
                    lemma_render_boundaries(v);
                    assert(lit_at(s@, i3 as int, spec_render_opt_string(v.refresh_token)));
                }
            }
            return None;
        },
    };
    proof {
        assert forall|v: TokenView| #[trigger] renders_to(s@, v) implies opt_string_view(refresh)
            == v.refresh_token && i4 == o_lit_created(v) by {
            lemma_render_parts(v);
            lemma_render_boundaries(v);
            assert(lit_at(s@, i3 as int, spec_render_opt_string(v.refresh_token)));
        }
    }
    let i5 = match expect_lit(s, i4, ",\"created_at\":\"") {
        Some(j) => j,
        None => {
            proof {
                assert forall|v: TokenView| #[trigger] renders_to(s@, v) implies false by {
                    lemma_render_parts(v);
                    lemma_render_boundaries(v);
                    assert(lit_at(s@, i4 as int, ",\"created_at\":\""@));
                }
            }
            return None;
        },
    };
    proof {
        assert forall|v: TokenView| #[trigger] renders_to(s@, v) implies i5 == o_created(v) by {
            lemma_render_boundaries(v);
        }
    }
    let (created, i6) = match parse_instant(s, i5) {
        Some(p) => p,
        None => {
            proof {
                assert forall|v: TokenView| #[trigger] renders_to(s@, v) implies false by {
                    lemma_render_parts(v);
                    lemma_render_boundaries(v);
                    assert(lit_at(s@, i5 as int, rfc3339_of(v.created_at)));
                    assert(s@[i5 + rfc3339_of(v.created_at).len()] == '"');
                }
            }
            return None;
        },
    };
    proof {
        assert forall|v: TokenView| #[trigger] renders_to(s@, v) implies created == v.created_at
            && i6 == o_lit_valid(v) + 1 by {
            lemma_render_parts(v);
            lemma_render_boundaries(v);
            assert(lit_at(s@, i5 as int, rfc3339_of(v.created_at)));
            assert(s@[i5 + rfc3339_of(v.created_at).len()] == '"');
        }
    }
    let i7 = match expect_lit(s, i6, ",\"valid_till\":\"") {
        Some(j) => j,
        None => {
            proof {
                assert forall|v: TokenView| #[trigger] renders_to(s@, v) implies false by {
                    lemma_render_boundaries(v);
                    assert(lit_at(s@, i6 as int, ",\"valid_till\":\""@));
                }
            }
            return None;
        },
    };
    proof {
        assert forall|v: TokenView| #[trigger] renders_to(s@, v) implies i7 == o_valid(v) by {
            lemma_render_boundaries(v);
        }
    }
    let (till, i8) = match parse_instant(s, i7) {
        Some(p) => p,
        None => {
            proof {
                assert forall|v: TokenView| #[trigger] renders_to(s@, v) implies false by {
                    lemma_render_parts(v);
                    lemma_render_boundaries(v);
                    assert(lit_at(s@, i7 as int, rfc3339_of(v.valid_till)));
                    assert(s@[i7 + rfc3339_of(v.valid_till).len()] == '"');
                }
            }
            return None;
        },
    };
    proof {
        assert forall|v: TokenView| #[trigger] renders_to(s@, v) implies till == v.valid_till
            && i8 == o_lit_scopes(v) + 1 by {
            lemma_render_parts(v);
            lemma_render_boundaries(v);
            assert(lit_at(s@, i7 as int, rfc3339_of(v.valid_till)));
            assert(s@[i7 + rfc3339_of(v.valid_till).len()] == '"');
        }
    }
    Some((access, i2, refresh, i4, created, i6, till, i8))
}

/// Decodes a token record from its canonical on-disk text.
///
/// Exactly the canonical renderings of well-formed records are accepted: a
/// decoded record re-renders to the given text, and the rendering of any
/// well-formed record decodes back to that record. Together with
/// [`render_token`] this is the round trip of persisting and reloading.
/// Any other text is a malformed record.
#[verifier::rlimit(100)]
pub fn parse_token(s: &str) -> (r: Result<Token, TokenError>)
    ensures
        r matches Ok(t) ==> token_wf(t) && instants_render_wf(t@) && s@ == spec_render_token(t@),
        r matches Err(e) ==> e is Malformed,
        forall|v: TokenView| #[trigger] renders_to(s@, v) ==> (r matches Ok(t) && t@ == v),
{
    let n = s.unicode_len();
    let (access, i2, refresh, i4, created, i6, till, i8) = match parse_head(s) {
        Some(p) => p,
        None => {
            return Err(TokenError::Malformed);
        },
    };
    let i9 = match expect_lit(s, i8, ",\"scopes\":") {
        Some(j) => j,
        None => {
            proof {
                assert forall|v: TokenView| #[trigger] renders_to(s@, v) implies false by {
                    lemma_render_boundaries(v);
                    assert(lit_at(s@, i8 as int, ",\"scopes\":"@));
                }
            }
            return Err(TokenError::Malformed);
        },
    };
    proof {
        assert forall|v: TokenView| #[trigger] renders_to(s@, v) implies i9 == o_scopes(v) by {
            lemma_render_boundaries(v);
        }
    }
    let (scopes, i10) = match parse_scopes(s, i9) {
        Some(p) => p,
        None => {
            proof {
                assert forall|v: TokenView| #[trigger] renders_to(s@, v) implies false by {
                    lemma_render_parts(v);
                    lemma_render_boundaries(v);
                    assert(scopes_plain(v.scopes));
                    assert(lit_at(s@, i9 as int, spec_render_scopes(v.scopes)));
                }
            }
            return Err(TokenError::Malformed);
        },
    };
    proof {
        assert forall|v: TokenView| #[trigger] renders_to(s@, v) implies opt_scopes_view(scopes)
            == v.scopes && i10 == o_close(v) by {
            lemma_render_parts(v);
            lemma_render_boundaries(v);
            assert(scopes_plain(v.scopes));
            assert(lit_at(s@, i9 as int, spec_render_scopes(v.scopes)));
        }
    }
    let i11 = match expect_lit(s, i10, "}") {
        Some(j) => j,
        None => {
            proof {
                assert forall|v: TokenView| #[trigger] renders_to(s@, v) implies false by {
                    lemma_render_parts(v);
                    lemma_render_boundaries(v);
                    assert(lit_at(s@, i10 as int, "}"@));
                }
            }
            return Err(TokenError::Malformed);
        },
    };
    if i11 != n {
        proof {
            assert forall|v: TokenView| #[trigger] renders_to(s@, v) implies false by {
                lemma_render_parts(v);
                lemma_render_boundaries(v);
                assert(i11 == o_end(v));
                assert(o_end(v) == s@.len());
            }
        }
        return Err(TokenError::Malformed);
    }
    let t = Token {
        access_token: access,
        refresh_token: refresh,
        created_at: created,
        valid_till: till,
        scopes,
    };
    proof {
        lemma_reassemble(
            s@,
            t@,
            "{\"access_token\":\""@.len() as int,
            i2 as int,
            i2 + ",\"refresh_token\":"@.len(),
            i4 as int,
            i4 + ",\"created_at\":\""@.len(),
            i6 as int,
            i6 + ",\"valid_till\":\""@.len(),
            i8 as int,
            i9 as int,
            i10 as int,
            i11 as int,
        );
        assert forall|v: TokenView| #[trigger] renders_to(s@, v) implies t@ == v by {
            assert(t@.access_token == v.access_token);
            assert(t@.refresh_token == v.refresh_token);
            assert(t@.created_at == v.created_at);
            assert(t@.valid_till == v.valid_till);
            assert(t@.scopes == v.scopes);
        }
    }
    Ok(t)
}

} // verus!
