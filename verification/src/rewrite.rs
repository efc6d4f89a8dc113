//! The line rewriter: an ordered set of per-line rules, applied to each
//! trimmed source line independently.  Blank lines, comment lines and
//! import lines are dropped; struct and function definition lines gain a
//! visibility qualifier (struct lines also gain a derive annotation and
//! two textual substitutions); every other line passes through with its
//! quote characters escaped.

use vstd::prelude::*;
use vstd::string::*;

verus! {

/// Whitespace as the trimming step understands it: the Unicode
/// white-space characters.
pub open spec fn is_space(c: char) -> bool {
    ||| c as u32 == 0x20
    ||| (0x09 <= c as u32 && c as u32 <= 0x0d)
    ||| c as u32 == 0x85
    ||| c as u32 == 0xa0
    ||| c as u32 == 0x1680
    ||| (0x2000 <= c as u32 && c as u32 <= 0x200a)
    ||| c as u32 == 0x2028
    ||| c as u32 == 0x2029
    ||| c as u32 == 0x202f
    ||| c as u32 == 0x205f
    ||| c as u32 == 0x3000
}

/// The sequence with its leading whitespace removed.
pub open spec fn trim_start(s: Seq<char>) -> Seq<char>
    decreases s.len(),
{
    if s.len() == 0 {
        s
    } else if is_space(s[0]) {
        trim_start(s.drop_first())
    } else {
        s
    }
}

/// The sequence with its trailing whitespace removed.
pub open spec fn trim_end(s: Seq<char>) -> Seq<char>
    decreases s.len(),
{
    if s.len() == 0 {
        s
    } else if is_space(s[s.len() - 1]) {
        trim_end(s.drop_last())
    } else {
        s
    }
}

/// The sequence with surrounding whitespace removed.
pub open spec fn trim(s: Seq<char>) -> Seq<char> {
    trim_end(trim_start(s))
}

/// Whether `s` begins with `p`.
pub open spec fn starts_with(s: Seq<char>, p: Seq<char>) -> bool {
    p.len() <= s.len() && s.take(p.len() as int) == p
}

/// Every `"` doubled into `\"`; all other characters unchanged.
pub open spec fn escape_quotes(s: Seq<char>) -> Seq<char>
    decreases s.len(),
{
    if s.len() == 0 {
        s
    } else if s[0] == '"' {
        seq!['\\', '"'] + escape_quotes(s.drop_first())
    } else {
        seq![s[0]] + escape_quotes(s.drop_first())
    }
}

/// Every non-overlapping occurrence of `pat`, found left to right,
/// replaced by `to`.  An empty pattern matches nothing.
pub open spec fn replace_all(s: Seq<char>, pat: Seq<char>, to: Seq<char>) -> Seq<char>
    decreases s.len(),
{
    if pat.len() == 0 || s.len() < pat.len() {
        s
    } else if s.take(pat.len() as int) == pat {
        to + replace_all(s.skip(pat.len() as int), pat, to)
    } else {
        seq![s[0]] + replace_all(s.drop_first(), pat, to)
    }
}

/// The substitutions applied to a struct-definition line: a bare
/// constructor name becomes a function-qualified one, and the owned
/// string type name becomes the borrowed-slice form.
pub open spec fn struct_substitutions(t: Seq<char>) -> Seq<char> {
    replace_all(replace_all(t, "new("@, "fn new("@), "String"@, "&str"@)
}

/// What one trimmed line contributes to the generated program.  The
/// first matching rule wins; the escaping passthrough is the catch-all.
pub open spec fn rewrite_line(t: Seq<char>) -> Seq<char> {
    if t.len() == 0 {
        Seq::<char>::empty()
    } else if starts_with(t, "//"@) {
        Seq::<char>::empty()
    } else if starts_with(t, "import"@) {
        Seq::<char>::empty()
    } else if starts_with(t, "struct"@) {
        "#[derive(Default)]\npub "@ + struct_substitutions(t) + "\n"@
    } else if starts_with(t, "fn"@) {
        "pub "@ + t + "\n"@
    } else {
        escape_quotes(t) + "\n"@
    }
}

/// What a raw (untrimmed) source line contributes.
pub open spec fn line_output(l: Seq<char>) -> Seq<char> {
    rewrite_line(trim(l))
}

/// Index of the first line feed in `s`, or `s.len()` if there is none.
pub open spec fn first_nl(s: Seq<char>) -> nat
    decreases s.len(),
{
    if s.len() == 0 {
        0
    } else if s[0] == '\n' {
        0
    } else {
        (first_nl(s.drop_first()) + 1) as nat
    }
}

/// A final carriage return removed: the treatment of a line terminated
/// by a carriage return and line feed pair.
pub open spec fn strip_cr(l: Seq<char>) -> Seq<char> {
    if l.len() > 0 && l[l.len() - 1] == '\r' {
        l.drop_last()
    } else {
        l
    }
}

/// The source text split into lines: lines end at a line feed or at a
/// carriage-return-line-feed pair, and a final line ending is optional.
pub open spec fn split_lines(s: Seq<char>) -> Seq<Seq<char>>
    decreases s.len(),
{
    if s.len() == 0 {
        Seq::<Seq<char>>::empty()
    } else {
        let j = first_nl(s);
        if j >= s.len() {
            seq![s]
        } else {
            seq![strip_cr(s.take(j as int))] + split_lines(s.skip(j as int + 1))
        }
    }
}

/// The concatenation, in source order, of what each line contributes.
pub open spec fn rewritten_lines(lines: Seq<Seq<char>>) -> Seq<char>
    decreases lines.len(),
{
    if lines.len() == 0 {
        Seq::<char>::empty()
    } else {
        line_output(lines[0]) + rewritten_lines(lines.drop_first())
    }
}

/// When the first `a` characters of `s` are whitespace and the character
/// at `a` (if any) is not, trimming the start drops exactly those `a`
/// characters.
pub proof fn lemma_trim_start_skip(s: Seq<char>, a: int)
    requires
        0 <= a <= s.len(),
        forall|k: int| 0 <= k < a ==> is_space(s[k]),
        a < s.len() ==> !is_space(s[a]),
    ensures
        trim_start(s) == s.skip(a),
    decreases a,
{
    if a == 0 {
        assert(s.skip(0) =~= s);
    } else {
        let d = s.drop_first();
        assert(forall|k: int| 0 <= k < a - 1 ==> is_space(#[trigger] d[k]));
        lemma_trim_start_skip(d, a - 1);
        assert(d.skip(a - 1) =~= s.skip(a));
    }
}

/// When the characters from `b` on are whitespace and the character at
/// `b - 1` (if any) is not, trimming the end keeps exactly the first `b`
/// characters.
pub proof fn lemma_trim_end_take(s: Seq<char>, b: int)
    requires
        0 <= b <= s.len(),
        forall|k: int| b <= k < s.len() ==> is_space(s[k]),
        b > 0 ==> !is_space(s[b - 1]),
    ensures
        trim_end(s) == s.take(b),
    decreases s.len(),
{
    if b == s.len() {
        assert(s.take(b) =~= s);
    } else {
        let d = s.drop_last();
        assert(forall|k: int| b <= k < d.len() ==> is_space(#[trigger] d[k]));
        lemma_trim_end_take(d, b);
        assert(d.take(b) =~= s.take(b));
    }
}

/// Trimming in terms of index bounds: whitespace before `a` and from `b`
/// on, none at the two inner borders, give the subrange from `a` to `b`.
pub proof fn lemma_trim_bounds(s: Seq<char>, a: int, b: int)
    requires
        0 <= a <= b <= s.len(),
        forall|k: int| 0 <= k < a ==> is_space(s[k]),
        forall|k: int| b <= k < s.len() ==> is_space(s[k]),
        a < b ==> !is_space(s[a]) && !is_space(s[b - 1]),
    ensures
        trim(s) == s.subrange(a, b),
{
    if a == b {
        lemma_trim_start_skip(s, s.len() as int);
        assert(s.skip(s.len() as int) =~= Seq::<char>::empty());
        assert(s.subrange(a, b) =~= Seq::<char>::empty());
    } else {
        lemma_trim_start_skip(s, a);
        let t = s.skip(a);
        assert(forall|k: int| b - a <= k < t.len() ==> is_space(#[trigger] t[k]));
        lemma_trim_end_take(t, b - a);
        assert(t.take(b - a) =~= s.subrange(a, b));
    }
}

/// The first line feed is at `k` when no earlier character is one and
/// the character at `k` (if any) is one.
pub proof fn lemma_first_nl_is(s: Seq<char>, k: int)
    requires
        0 <= k <= s.len(),
        forall|m: int| 0 <= m < k ==> s[m] != '\n',
        k < s.len() ==> s[k] == '\n',
    ensures
        first_nl(s) == k,
    decreases k,
{
    if k > 0 {
        let d = s.drop_first();
        assert(forall|m: int| 0 <= m < k - 1 ==> #[trigger] d[m] != '\n');
        lemma_first_nl_is(d, k - 1);
    }
}

/// Prepending one line puts its contribution first.
pub proof fn lemma_rewritten_lines_cons(l: Seq<char>, rest: Seq<Seq<char>>)
    ensures
        rewritten_lines(seq![l] + rest) == line_output(l) + rewritten_lines(rest),
{
    let lines = seq![l] + rest;
    assert(lines[0] == l);
    assert(lines.drop_first() =~= rest);
}

/// Whether `c` is whitespace.
pub fn space_char(c: char) -> (r: bool)
    ensures
        r == is_space(c),
{
    let u = c as u32;
    u == 0x20 || (0x09 <= u && u <= 0x0d) || u == 0x85 || u == 0xa0 || u == 0x1680 || (0x2000
        <= u && u <= 0x200a) || u == 0x2028 || u == 0x2029 || u == 0x202f || u == 0x205f || u
        == 0x3000
}

/// Whether `s` begins with `p`.
pub fn str_has_prefix(s: &str, p: &str) -> (r: bool)
    ensures
        r == starts_with(s@, p@),
{
    let n = s.unicode_len();
    let pn = p.unicode_len();
    if pn > n {
        return false;
    }
    let mut i: usize = 0;
    loop
        invariant
            i <= pn,
            pn <= n,
            n == s@.len(),
            pn == p@.len(),
            forall|k: int| 0 <= k < i ==> s@[k] == p@[k],
        ensures
            (i == pn && forall|k: int| 0 <= k < pn ==> s@[k] == p@[k]) || !starts_with(s@, p@),
        decreases pn - i,
    {
        if i >= pn {
            break ;
        }
        if s.get_char(i) != p.get_char(i) {
            proof {
                assert(s@.take(pn as int)[i as int] == s@[i as int]);
            }
            break ;
        }
        i += 1;
    }
    if i == pn {
        proof {
            assert(s@.take(pn as int) =~= p@);
        }
        true
    } else {
        false
    }
}

/// Whether `pat` occurs in `t` at position `i`.
fn pattern_at(t: &str, pat: &str, i: usize) -> (r: bool)
    requires
        i <= t@.len(),
    ensures
        r == (i + pat@.len() <= t@.len() && t@.subrange(
            i as int,
            i as int + pat@.len() as int,
        ) == pat@),
{
    let n = t.unicode_len();
    let pn = pat.unicode_len();
    if pn > n - i {
        return false;
    }
    let mut k: usize = 0;
    loop
        invariant
            k <= pn,
            i + pn <= n,
            n == t@.len(),
            pn == pat@.len(),
            forall|m: int| 0 <= m < k ==> t@[i + m] == pat@[m],
        ensures
            (k == pn && forall|m: int| 0 <= m < pn ==> t@[i + m] == pat@[m]) || t@.subrange(
                i as int,
                i as int + pn as int,
            ) != pat@,
        decreases pn - k,
    {
        if k >= pn {
            break ;
        }
        if t.get_char(i + k) != pat.get_char(k) {
            proof {
                assert(t@.subrange(i as int, i as int + pn as int)[k as int] == t@[i + k]);
            }
            break ;
        }
        k += 1;
    }
    if k == pn {
        proof {
            assert(t@.subrange(i as int, i as int + pn as int) =~= pat@);
        }
        true
    } else {
        false
    }
}

/// `t` with every occurrence of `pat` replaced by `to`, left to right.
pub fn replace_all_str(t: &str, pat: &str, to: &str) -> (r: String)
    requires
        pat@.len() > 0,
    ensures
        r@ == replace_all(t@, pat@, to@),
{
    let n = t.unicode_len();
    let pn = pat.unicode_len();
    let mut r = String::new();
    proof {
        assert(t@.skip(0) =~= t@);
    }
    let mut i: usize = 0;
    while i < n
        invariant
            i <= n,
            n == t@.len(),
            pn == pat@.len(),
            pn > 0,
            r@ + replace_all(t@.skip(i as int), pat@, to@) == replace_all(t@, pat@, to@),
        decreases n - i,
    {
        let ghost s0 = t@.skip(i as int);
        let ghost prev = r@;
        if pattern_at(t, pat, i) {
            r.append(to);
            proof {
                assert(s0.take(pn as int) =~= t@.subrange(i as int, i as int + pn as int));
                assert(s0.skip(pn as int) =~= t@.skip(i as int + pn as int));
                assert(replace_all(s0, pat@, to@) == to@ + replace_all(
                    t@.skip(i as int + pn as int),
                    pat@,
                    to@,
                ));
                assert(prev + to@ + replace_all(t@.skip(i as int + pn as int), pat@, to@) =~= prev
                    + (to@ + replace_all(t@.skip(i as int + pn as int), pat@, to@)));
            }
            i += pn;
        } else {
            let piece = t.substring_char(i, i + 1);
            r.append(piece);
            proof {
                assert(piece@ =~= seq![t@[i as int]]);
                assert(s0.drop_first() =~= t@.skip(i as int + 1));
                assert(s0[0] == t@[i as int]);
                if s0.len() >= pn {
                    assert(s0.take(pn as int) =~= t@.subrange(i as int, i as int + pn as int));
                    assert(replace_all(s0, pat@, to@) == seq![t@[i as int]] + replace_all(
                        t@.skip(i as int + 1),
                        pat@,
                        to@,
                    ));
                } else {
                    assert(replace_all(s0, pat@, to@) == s0);
                    assert(replace_all(t@.skip(i as int + 1), pat@, to@) == t@.skip(
                        i as int + 1,
                    ));
                    assert(s0 =~= seq![t@[i as int]] + t@.skip(i as int + 1));
                }
                assert(prev + seq![t@[i as int]] + replace_all(t@.skip(i as int + 1), pat@, to@)
                    =~= prev + (seq![t@[i as int]] + replace_all(t@.skip(i as int + 1), pat@, to@)));
            }
            i += 1;
        }
    }
    proof {
        assert(t@.skip(n as int) =~= Seq::<char>::empty());
        assert(r@ + Seq::<char>::empty() =~= r@);
    }
    r
}

/// Appends `t` to `out` with every quote character escaped.
pub fn append_escaped(out: &mut String, t: &str)
    ensures
        final(out)@ == old(out)@ + escape_quotes(t@),
{
    let n = t.unicode_len();
    proof {
        assert(t@.skip(0) =~= t@);
        assert(old(out)@ + Seq::<char>::empty() =~= old(out)@);
    }
    let mut i: usize = 0;
    while i < n
        invariant
            i <= n,
            n == t@.len(),
            out@ + escape_quotes(t@.skip(i as int)) == old(out)@ + escape_quotes(t@),
        decreases n - i,
    {
        let ghost s0 = t@.skip(i as int);
        let ghost prev = out@;
        let c = t.get_char(i);
        proof {
            assert(s0[0] == t@[i as int]);
            assert(s0.drop_first() =~= t@.skip(i as int + 1));
        }
        if c == '"' {
            out.append("\\\"");
            proof {
                reveal_strlit("\\\"");
                assert(("\\\"")@ =~= seq!['\\', '"']);
                assert(prev + seq!['\\', '"'] + escape_quotes(t@.skip(i as int + 1)) =~= prev + (
                seq!['\\', '"'] + escape_quotes(t@.skip(i as int + 1))));
            }
        } else {
            let piece = t.substring_char(i, i + 1);
            out.append(piece);
            proof {
                assert(piece@ =~= seq![t@[i as int]]);
                assert(prev + seq![t@[i as int]] + escape_quotes(t@.skip(i as int + 1)) =~= prev + (
                seq![t@[i as int]] + escape_quotes(t@.skip(i as int + 1))));
            }
        }
        i += 1;
    }
    proof {
        assert(t@.skip(n as int) =~= Seq::<char>::empty());
        assert(out@ + Seq::<char>::empty() =~= out@);
    }
}

} // verus!
