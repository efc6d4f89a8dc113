//! The translation driver: the scaffold followed by what every source
//! line contributes, in source order.

use vstd::prelude::*;
use vstd::string::*;

use crate::rewrite::append_escaped;
use crate::rewrite::escape_quotes;
use crate::rewrite::is_space;
use crate::rewrite::lemma_first_nl_is;
use crate::rewrite::lemma_rewritten_lines_cons;
use crate::rewrite::lemma_trim_bounds;
use crate::rewrite::line_output;
use crate::rewrite::replace_all_str;
use crate::rewrite::rewrite_line;
use crate::rewrite::rewritten_lines;
use crate::rewrite::space_char;
use crate::rewrite::split_lines;
use crate::rewrite::str_has_prefix;
use crate::rewrite::strip_cr;
use crate::rewrite::struct_substitutions;
use crate::scaffold::scaffold_chars;
use crate::scaffold::scaffold_text;

verus! {

/// The full generated program for a given source text.
pub open spec fn translated(src: Seq<char>) -> Seq<char> {
    scaffold_chars() + rewritten_lines(split_lines(src))
}

/// Builds the generated program: the scaffold, then what every source
/// line contributes, in source order.  Pure in its argument: the result
/// is a function of the source text alone.
pub fn translate_to_rust(source: &str) -> (r: String)
    ensures
        r@ == translated(source@),
{
    let ghost src = source@;
    let n = source.unicode_len();
    let mut out: String = scaffold_text().to_owned();
    proof {
        assert(src.skip(0) =~= src);
    }
    let mut i: usize = 0;
    while i < n
        invariant
            i <= n,
            n == src.len(),
            src == source@,
            out@ + rewritten_lines(split_lines(src.skip(i as int))) == translated(src),
        decreases n - i,
    {
        let ghost s0 = src.skip(i as int);
        let ghost out0 = out@;
        // Scan to the end of the current line.
        let mut j: usize = i;
        loop
            invariant
                i <= j <= n,
                n == src.len(),
                src == source@,
                forall|k: int| i <= k < j ==> src[k] != '\n',
            ensures
                i <= j <= n,
                forall|k: int| i <= k < j ==> src[k] != '\n',
                j == n || src[j as int] == '\n',
            decreases n - j,
        {
            if j >= n {
                break ;
            }
            if source.get_char(j) == '\n' {
                break ;
            }
            j += 1;
        }
        // A carriage return before the line feed belongs to the line
        // ending, not to the line.
        let line_end: usize = if j > i && j < n {
            if source.get_char(j - 1) == '\r' {
                j - 1
            } else {
                j
            }
        } else {
            j
        };
        let ghost line = src.subrange(i as int, line_end as int);
        proof {
            assert forall|m: int| 0 <= m < j - i implies s0[m] != '\n' by {
                assert(s0[m] == src[i + m]);
            }
            lemma_first_nl_is(s0, j as int - i as int);
            if j < n {
                let raw = s0.take(j as int - i as int);
                assert(raw =~= src.subrange(i as int, j as int));
                if line_end < j {
                    assert(raw[raw.len() - 1] == src[j as int - 1]);
                    assert(strip_cr(raw) =~= line);
                } else {
                    if raw.len() > 0 {
                        assert(raw[raw.len() - 1] == src[j as int - 1]);
                    }
                    assert(strip_cr(raw) =~= line);
                }
                assert(s0.skip(j as int - i as int + 1) =~= src.skip(j as int + 1));
                assert(split_lines(s0) == seq![line] + split_lines(src.skip(j as int + 1)));
            } else {
                assert(line =~= s0);
                assert(seq![line] + Seq::<Seq<char>>::empty() =~= seq![line]);
                assert(split_lines(s0) == seq![line] + Seq::<Seq<char>>::empty());
            }
        }
        // Trim the line: leading whitespace ...
        let mut a: usize = i;
        loop
            invariant
                i <= a <= line_end,
                line_end <= n,
                n == src.len(),
                src == source@,
                forall|k: int| i <= k < a ==> is_space(src[k]),
            ensures
                i <= a <= line_end,
                forall|k: int| i <= k < a ==> is_space(src[k]),
                a == line_end || !is_space(src[a as int]),
            decreases line_end - a,
        {
            if a >= line_end {
                break ;
            }
            if !space_char(source.get_char(a)) {
                break ;
            }
            a += 1;
        }
        // ... and trailing whitespace.
        let mut b: usize = line_end;
        loop
            invariant
                a <= b <= line_end,
                line_end <= n,
                n == src.len(),
                src == source@,
                forall|k: int| b <= k < line_end ==> is_space(src[k]),
            ensures
                a <= b <= line_end,
                forall|k: int| b <= k < line_end ==> is_space(src[k]),
                b == a || !is_space(src[b as int - 1]),
            decreases b,
        {
            if b <= a {
                break ;
            }
            if !space_char(source.get_char(b - 1)) {
                break ;
            }
            b -= 1;
        }
        let ghost tl = src.subrange(a as int, b as int);
        proof {
            assert forall|k: int| 0 <= k < a - i implies is_space(line[k]) by {
                assert(line[k] == src[i + k]);
            }
            assert forall|k: int| b - i <= k < line.len() implies is_space(line[k]) by {
                assert(line[k] == src[i + k]);
            }
            if a < b {
                assert(line[a as int - i] == src[a as int]);
                assert(line[b as int - i - 1] == src[b as int - 1]);
            }
            lemma_trim_bounds(line, a as int - i as int, b as int - i as int);
            assert(line.subrange(a as int - i, b as int - i) =~= tl);
        }
        if a == b {
            proof {
                assert(tl =~= Seq::<char>::empty());
                assert(out@ + rewrite_line(tl) =~= out@);
            }
        } else {
            let t = source.substring_char(a, b);
            if str_has_prefix(t, "//") || str_has_prefix(t, "import") {
                proof {
                    assert(out@ + rewrite_line(tl) =~= out@);
                }
            } else if str_has_prefix(t, "struct") {
                out.append("#[derive(Default)]\npub ");
                proof {
                    reveal_strlit("new(");
                    reveal_strlit("String");
                }
                let s1 = replace_all_str(t, "new(", "fn new(");
                let s2 = replace_all_str(s1.as_str(), "String", "&str");
                out.append(s2.as_str());
                out.append("\n");
                proof {
                    assert(rewrite_line(tl) == "#[derive(Default)]\npub "@ + struct_substitutions(
                        tl,
                    ) + "\n"@);
                    assert(out@ =~= out0 + ("#[derive(Default)]\npub "@ + struct_substitutions(tl)
                        + "\n"@));
                }
            } else if str_has_prefix(t, "fn") {
                out.append("pub ");
                out.append(t);
                out.append("\n");
                proof {
                    assert(rewrite_line(tl) == "pub "@ + tl + "\n"@);
                    assert(out@ =~= out0 + ("pub "@ + tl + "\n"@));
                }
            } else {
                append_escaped(&mut out, t);
                out.append("\n");
                proof {
                    assert(rewrite_line(tl) == escape_quotes(tl) + "\n"@);
                    assert(out@ =~= out0 + (escape_quotes(tl) + "\n"@));
                }
            }
        }
        proof {
            assert(out@ == out0 + line_output(line));
        }
        if j < n {
            i = j + 1;
            proof {
                lemma_rewritten_lines_cons(line, split_lines(src.skip(i as int)));
                assert(out0 + (line_output(line) + rewritten_lines(split_lines(src.skip(i as int))))
                    =~= (out0 + line_output(line)) + rewritten_lines(split_lines(src.skip(i as int))));
            }
        } else {
            i = n;
            proof {
                lemma_rewritten_lines_cons(line, Seq::<Seq<char>>::empty());
                assert(src.skip(n as int) =~= Seq::<char>::empty());
                assert(split_lines(src.skip(i as int)) =~= Seq::<Seq<char>>::empty());
                assert(line_output(line) + rewritten_lines(Seq::<Seq<char>>::empty())
                    =~= line_output(line));
                assert(out0 + (line_output(line) + rewritten_lines(split_lines(src.skip(i as int))))
                    =~= (out0 + line_output(line)) + rewritten_lines(split_lines(src.skip(i as int))));
            }
        }
    }
    proof {
        assert(src.skip(n as int) =~= Seq::<char>::empty());
        assert(out@ + rewritten_lines(split_lines(Seq::<char>::empty())) =~= out@);
    }
    out
}

} // verus!
