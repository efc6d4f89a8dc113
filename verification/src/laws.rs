//! The properties the rewriter and the translation driver are held to,
//! each stated over the same spec functions the executable contracts
//! use.

use vstd::prelude::*;

use crate::rewrite::escape_quotes;
use crate::rewrite::line_output;
use crate::rewrite::replace_all;
use crate::rewrite::rewritten_lines;
use crate::rewrite::split_lines;
use crate::rewrite::starts_with;
use crate::rewrite::trim;
use crate::scaffold::scaffold_chars;
use crate::translate::translated;

verus! {

/// The translation is deterministic: identical source texts yield
/// identical generated programs.
pub proof fn lemma_translation_deterministic(s1: Seq<char>, s2: Seq<char>)
    requires
        s1 == s2,
    ensures
        translated(s1) == translated(s2),
{
}

/// Rewriting distributes over concatenation of line sequences.
pub proof fn lemma_rewritten_lines_concat(xs: Seq<Seq<char>>, ys: Seq<Seq<char>>)
    ensures
        rewritten_lines(xs + ys) == rewritten_lines(xs) + rewritten_lines(ys),
    decreases xs.len(),
{
    if xs.len() == 0 {
        assert(xs + ys =~= ys);
        assert(Seq::<char>::empty() + rewritten_lines(ys) =~= rewritten_lines(ys));
    } else {
        let l = xs[0];
        assert((xs + ys)[0] == l);
        assert((xs + ys).drop_first() =~= xs.drop_first() + ys);
        lemma_rewritten_lines_concat(xs.drop_first(), ys);
        assert(line_output(l) + (rewritten_lines(xs.drop_first()) + rewritten_lines(ys)) =~= (
        line_output(l) + rewritten_lines(xs.drop_first())) + rewritten_lines(ys));
    }
}

/// Line order is preserved: split the line sequence at any point, and
/// the output is the output of the earlier lines followed by the output
/// of the later lines.  In particular any two lines contribute in their
/// source order.
pub proof fn lemma_line_order_preserved(lines: Seq<Seq<char>>, k: int)
    requires
        0 <= k <= lines.len(),
    ensures
        rewritten_lines(lines) == rewritten_lines(lines.take(k)) + rewritten_lines(
            lines.skip(k),
        ),
{
    assert(lines.take(k) + lines.skip(k) =~= lines);
    lemma_rewritten_lines_concat(lines.take(k), lines.skip(k));
}

/// The passthrough escape is exactly the replacement of every quote by
/// backslash-quote: every `"` becomes `\"` and nothing else changes.
pub proof fn lemma_escape_is_quote_replacement(s: Seq<char>)
    ensures
        escape_quotes(s) == replace_all(s, "\""@, "\\\""@),
    decreases s.len(),
{
    reveal_strlit("\"");
    reveal_strlit("\\\"");
    assert("\""@ =~= seq!['"']);
    assert("\\\""@ =~= seq!['\\', '"']);
    if s.len() > 0 {
        lemma_escape_is_quote_replacement(s.drop_first());
        if s[0] == '"' {
            assert(s.take(1) =~= "\""@);
            assert(s.skip(1) =~= s.drop_first());
        } else {
            assert(s.take(1) != "\""@) by {
                assert(s.take(1)[0] == s[0]);
            }
        }
    }
}

/// A line without quote characters passes through unchanged.
pub proof fn lemma_escape_without_quotes_is_identity(s: Seq<char>)
    requires
        forall|k: int| 0 <= k < s.len() ==> s[k] != '"',
    ensures
        escape_quotes(s) == s,
    decreases s.len(),
{
    if s.len() > 0 {
        let d = s.drop_first();
        assert(forall|k: int| 0 <= k < d.len() ==> #[trigger] d[k] != '"');
        lemma_escape_without_quotes_is_identity(d);
        assert(seq![s[0]] + d =~= s);
    }
}

/// A line that trims to nothing, or to a single-line comment,
/// contributes nothing: no empty or comment line reaches the output.
pub proof fn lemma_blank_or_comment_line_vanishes(l: Seq<char>)
    requires
        trim(l).len() == 0 || starts_with(trim(l), "//"@),
    ensures
        line_output(l) == Seq::<char>::empty(),
{
}

/// A line that trims to an import-keyword line contributes nothing: no
/// import line reaches the output.
pub proof fn lemma_import_line_vanishes(l: Seq<char>)
    requires
        starts_with(trim(l), "import"@),
    ensures
        line_output(l) == Seq::<char>::empty(),
{
}

/// When no line contributes anything, the rewritten body is empty.
proof fn lemma_rewritten_lines_all_empty(lines: Seq<Seq<char>>)
    requires
        forall|k: int|
            0 <= k < lines.len() ==> line_output(#[trigger] lines[k]) == Seq::<char>::empty(),
    ensures
        rewritten_lines(lines) == Seq::<char>::empty(),
    decreases lines.len(),
{
    if lines.len() > 0 {
        let d = lines.drop_first();
        assert(forall|k: int|
            0 <= k < d.len() ==> line_output(#[trigger] d[k]) == Seq::<char>::empty());
        lemma_rewritten_lines_all_empty(d);
        assert(Seq::<char>::empty() + Seq::<char>::empty() =~= Seq::<char>::empty());
    }
}

/// A source whose every line contributes nothing — blank lines, comment
/// lines, import lines — generates the bare scaffold.
pub proof fn lemma_all_lines_skipped_gives_scaffold(src: Seq<char>)
    requires
        forall|k: int|
            0 <= k < split_lines(src).len() ==> line_output(#[trigger] split_lines(src)[k])
                == Seq::<char>::empty(),
    ensures
        translated(src) == scaffold_chars(),
{
    lemma_rewritten_lines_all_empty(split_lines(src));
    assert(scaffold_chars() + Seq::<char>::empty() =~= scaffold_chars());
}

/// Every generated program begins with exactly the scaffold text,
/// whatever the source.
pub proof fn lemma_output_begins_with_scaffold(src: Seq<char>)
    ensures
        translated(src).len() >= scaffold_chars().len(),
        translated(src).take(scaffold_chars().len() as int) == scaffold_chars(),
{
    assert(translated(src).take(scaffold_chars().len() as int) =~= scaffold_chars());
}

} // verus!
