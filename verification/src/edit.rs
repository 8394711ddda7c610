//! The text editor tool: line-addressed view, create, string replacement,
//! insertion, and per-file undo history over full prior file contents.
use vstd::prelude::*;
use crate::base::str_opt;
use crate::base::ToolError;
use crate::base::ToolResult;
use crate::text::chars_to_string;
use crate::text::count_char;
use crate::text::count_char_in;
use crate::text::dec_digits;
use crate::text::dec_digits_signed;
use crate::text::expand_tabs;
use crate::text::expand_tabs_spec;
use crate::text::count_occurrences;
use crate::text::find_sub;
use crate::text::first_hit;
use crate::text::has_match_from;
use crate::text::join_lines;
use crate::text::lemma_line_join_push;
use crate::text::lemma_line_split_len;
use crate::text::line_join;
use crate::text::line_split;
use crate::text::lines_view;
use crate::text::matches_at;
use crate::text::pad_left_spec;
use crate::text::push_chars;
use crate::text::push_dec_i64;
use crate::text::push_dec_u128;
use crate::text::push_dec_u64;
use crate::text::push_padded;
use crate::text::push_str_chars;
use crate::text::sort_lines;
use crate::text::sorted_lex;
use crate::text::split_lines;
use crate::text::str_to_chars;
use crate::text::subrange_chars;
use crate::text::subrange_lines;
use crate::text::lemma_count_first;
use crate::text::lemma_count_none;
use crate::text::lemma_count_pos;
use crate::text::lemma_matches_skip;
use crate::text::lemma_count_char_take;
use crate::text::lemma_expand_tabs_len;
use crate::text::lemma_count_char_le;
use crate::text::append_lines;
use crate::text::lemma_line_split_count;

verus! {

/// Number of context lines shown around an edit in result snippets.
pub const SNIPPET_LINES: usize = 4;

/// Largest file size (in bytes) the editor will read whole.
pub const MAX_FILE_SIZE: u64 = 10485760;

/// Largest number of lines rendered before the middle is elided.
pub const MAX_DISPLAY_LINES: usize = 1000;

/// The editing commands.
pub enum EditCommand {
    /// Show a file or directory.
    View,
    /// Create a new file.
    Create,
    /// Replace one unique occurrence of a string.
    StrReplace,
    /// Insert text at a line position.
    Insert,
    /// Undo the most recent edit of a file.
    UndoEdit,
}

/// One rendered line: the 1-based line number right-aligned to six
/// characters, a tab, and the line itself.
pub open spec fn numbered_line(l: Seq<char>, n: nat) -> Seq<char> {
    pad_left_spec(dec_digits(n), 6) + seq!['\t'] + l
}

/// The lines of `ls` rendered with numbers counting up from `init`.
pub open spec fn numbered_block(ls: Seq<Seq<char>>, init: nat) -> Seq<char> {
    line_join(Seq::new(ls.len(), |i: int| numbered_line(ls[i], (init + i) as nat)))
}

/// The notice shown in place of elided middle lines.
pub open spec fn trunc_notice() -> Seq<char> {
    "<content clipped>\nNote: only part of the content is shown. Use the view_range parameter to read further line ranges."@
}

/// The numbered rendering of `content`: every line numbered from `init`, or,
/// past `MAX_DISPLAY_LINES` lines, the first and last halves around a notice.
pub open spec fn rendered_body(content: Seq<char>, init: nat) -> Seq<char> {
    let ls = line_split(content);
    if ls.len() > MAX_DISPLAY_LINES {
        numbered_block(ls.take(500), init) + "\n\n"@ + trunc_notice() + "\n\n"@ + numbered_block(
            ls.skip(ls.len() - 500),
            (init + ls.len() - 500) as nat,
        )
    } else {
        numbered_block(ls, init)
    }
}

/// The full rendering: a header naming `descriptor`, then the numbered body.
pub open spec fn make_output_spec(content: Seq<char>, descriptor: Seq<char>, init: nat) -> Seq<
    char,
> {
    "Here's the result of running `cat -n` on "@ + descriptor + ":\n"@ + rendered_body(
        content,
        init,
    ) + "\n"@
}

/// Appends the rendering of the lines `ls` numbered from `init` to `out`.
fn push_numbered_block(out: &mut Vec<char>, ls: &Vec<Vec<char>>, init: u128)
    requires
        init + ls@.len() <= u128::MAX,
    ensures
        final(out)@ == old(out)@ + numbered_block(lines_view(ls@), init as nat),
{
    let ghost base = out@;
    let ghost target = Seq::new(
        lines_view(ls@).len(),
        |i: int| numbered_line(lines_view(ls@)[i], (init + i) as nat),
    );
    let mut i: usize = 0;
    while i < ls.len()
        invariant
            init + ls@.len() <= u128::MAX,
            i <= ls@.len(),
            target == Seq::new(
                lines_view(ls@).len(),
                |j: int| numbered_line(lines_view(ls@)[j], (init + j) as nat),
            ),
            out@ == base + line_join(target.take(i as int)),
        decreases ls@.len() - i,
    {
        proof {
            assert(target.take(i + 1) =~= target.take(i as int).push(target[i as int]));
            lemma_line_join_push(target.take(i as int), target[i as int]);
        }
        if i > 0 {
            out.push('\n');
        }
        let ghost mid = out@;
        let mut num: Vec<char> = Vec::new();
        push_dec_u128(&mut num, init + (i as u128));
        proof {
            assert(num@ == dec_digits((init + i) as nat));
        }
        push_padded(out, &num, 6);
        out.push('\t');
        push_chars(out, &ls[i]);
        proof {
            assert(out@ =~= mid + numbered_line(lines_view(ls@)[i as int], (init + i) as nat));
            if i == 0 {
                assert(line_join(target.take(0int)) =~= Seq::<char>::empty());
                assert(base + line_join(target.take(0int)) =~= base);
                assert(out@ =~= base + line_join(target.take(i + 1)));
            } else {
                assert(out@ =~= base + line_join(target.take(i + 1)));
            }
        }
        i += 1;
    }
    proof {
        assert(target.take(ls@.len() as int) =~= target);
        assert(lines_view(ls@).len() == ls@.len());
    }
}

/// Renders `content` with numbered lines for the caller, as
/// `make_output_spec` describes.
pub fn render_output(content: &Vec<char>, descriptor: &str, init: usize) -> (r: Vec<char>)
    ensures
        r@ == make_output_spec(content@, descriptor@, init as nat),
{
    let mut out: Vec<char> = Vec::new();
    push_str_chars(&mut out, "Here's the result of running `cat -n` on ");
    push_str_chars(&mut out, descriptor);
    push_str_chars(&mut out, ":\n");
    let ls = split_lines(content);
    proof {
        assert(lines_view(ls@) == line_split(content@));
    }
    if ls.len() > MAX_DISPLAY_LINES {
        let mut first: Vec<Vec<char>> = Vec::new();
        let mut k: usize = 0;
        while k < 500
            invariant
                ls@.len() > MAX_DISPLAY_LINES,
                k <= 500,
                lines_view(first@) == lines_view(ls@).take(k as int),
                first@.len() == k,
            decreases 500 - k,
        {
            let l = ls[k].clone();
            proof {
                assert(l@ == lines_view(ls@)[k as int]);
                assert(lines_view(first@.push(l)) =~~= lines_view(ls@).take(k + 1));
            }
            first.push(l);
            k += 1;
        }
        proof {
            assert(lines_view(first@) =~~= lines_view(ls@).take(500));
        }
        push_numbered_block(&mut out, &first, init as u128);
        push_str_chars(&mut out, "\n\n");
        push_str_chars(
            &mut out,
            "<content clipped>\nNote: only part of the content is shown. Use the view_range parameter to read further line ranges.",
        );
        push_str_chars(&mut out, "\n\n");
        let start2 = ls.len() - 500;
        let mut second: Vec<Vec<char>> = Vec::new();
        let mut k2: usize = start2;
        while k2 < ls.len()
            invariant
                ls@.len() > MAX_DISPLAY_LINES,
                start2 == ls@.len() - 500,
                start2 <= k2 <= ls@.len(),
                second@.len() == k2 - start2,
                lines_view(second@) == lines_view(ls@).subrange(start2 as int, k2 as int),
            decreases ls@.len() - k2,
        {
            let l = ls[k2].clone();
            proof {
                assert(l@ == lines_view(ls@)[k2 as int]);
                assert(lines_view(second@.push(l)) =~~= lines_view(ls@).subrange(
                    start2 as int,
                    k2 + 1,
                ));
            }
            second.push(l);
            k2 += 1;
        }
        proof {
            assert(lines_view(second@) =~~= lines_view(ls@).skip(start2 as int));
        }
        push_numbered_block(&mut out, &second, (init as u128) + (start2 as u128));
        proof {
            assert(out@ =~= "Here's the result of running `cat -n` on "@ + descriptor@ + ":\n"@
                + rendered_body(content@, init as nat));
        }
    } else {
        push_numbered_block(&mut out, &ls, init as u128);
        proof {
            assert(out@ =~= "Here's the result of running `cat -n` on "@ + descriptor@ + ":\n"@
                + rendered_body(content@, init as nat));
        }
    }
    push_str_chars(&mut out, "\n");
    proof {
        assert(out@ =~= make_output_spec(content@, descriptor@, init as nat));
    }
    out
}

/// Whether the line `l` contains `pat` (an empty pattern is contained in
/// every line).
pub open spec fn contains_pat(l: Seq<char>, pat: Seq<char>) -> bool {
    pat.len() == 0 || has_match_from(l, pat, 0)
}

/// The 1-based numbers of the lines that contain `pat`, in order.
pub open spec fn lines_hit(ls: Seq<Seq<char>>, pat: Seq<char>) -> Seq<nat>
    decreases ls.len(),
{
    if ls.len() == 0 {
        Seq::empty()
    } else {
        lines_hit(ls.drop_last(), pat) + if contains_pat(ls.last(), pat) {
            seq![ls.len() as nat]
        } else {
            Seq::empty()
        }
    }
}

/// Numbers joined by a comma and a space.
pub open spec fn num_list(ns: Seq<nat>) -> Seq<char>
    decreases ns.len(),
{
    if ns.len() == 0 {
        Seq::empty()
    } else if ns.len() == 1 {
        dec_digits(ns[0])
    } else {
        num_list(ns.drop_last()) + ", "@ + dec_digits(ns.last())
    }
}

/// The error text when the string to replace does not occur.
pub open spec fn not_found_msg(olde: Seq<char>, path: Seq<char>) -> Seq<char> {
    "No replacement was performed, old_str `"@ + olde + "` did not appear verbatim in "@ + path
}

/// The error text when the string to replace occurs more than once, naming
/// every line that contains it.
pub open spec fn multi_msg(olde: Seq<char>, content: Seq<char>) -> Seq<char> {
    "No replacement was performed. Multiple occurrences of old_str `"@ + olde + "` in lines ["@
        + num_list(lines_hit(line_split(content), olde)) + "]. Please ensure it is unique"@
}

/// The content after replacing the unique occurrence of `olde` by `newe`.
pub open spec fn replaced_content(s: Seq<char>, olde: Seq<char>, newe: Seq<char>) -> Seq<char> {
    let i = first_hit(s, olde);
    s.take(i) + newe + s.skip(i + olde.len())
}

/// The success text of a replacement: the file name and a snippet of the
/// new content around the replaced region, with `SNIPPET_LINES` context
/// lines on either side.
pub open spec fn replace_msg(path: Seq<char>, s: Seq<char>, olde: Seq<char>, newe: Seq<char>) -> Seq<
    char,
> {
    let i = first_hit(s, olde);
    let rl = count_char(s.take(i), '\n');
    let start = if rl >= 4 {
        (rl - 4) as nat
    } else {
        0nat
    };
    let end = rl + 4 + count_char(newe, '\n');
    let nc = s.take(i) + newe + s.skip(i + olde.len());
    let ls = line_split(nc);
    let hi = if end + 1 <= ls.len() {
        (end + 1) as nat
    } else {
        ls.len()
    };
    let snippet = line_join(ls.subrange(start as int, hi as int));
    "The file "@ + path + " has been edited. \n\n"@ + make_output_spec(
        snippet,
        "a snippet of "@ + path,
        (start + 1) as nat,
    )
}

/// The error text for an insertion position outside `[0, total]`.
pub open spec fn insert_bad_line_msg(n: int, total: nat) -> Seq<char> {
    "Invalid `insert_line` parameter: "@ + dec_digits_signed(n)
        + ". It should be within the range of lines of the file: [0, "@ + dec_digits(total) + "]"@
}

/// The lines after inserting the lines of `newe` at position `k`.
pub open spec fn inserted_lines(s: Seq<char>, k: int, newe: Seq<char>) -> Seq<Seq<char>> {
    let ls = line_split(s);
    ls.take(k) + line_split(newe) + ls.skip(k)
}

/// The success text of an insertion: the file name and a snippet of the new
/// content around the insertion point.
pub open spec fn insert_msg(path: Seq<char>, s: Seq<char>, k: int, newe: Seq<char>) -> Seq<char> {
    let merged = inserted_lines(s, k, newe);
    let nl = line_split(newe);
    let start = if k >= 4 {
        (k - 4) as nat
    } else {
        0nat
    };
    let end = if k + nl.len() + 4 <= merged.len() {
        (k + nl.len() + 4) as nat
    } else {
        merged.len()
    };
    let snippet = line_join(merged.subrange(start as int, end as int));
    "The file "@ + path + " has been edited. \n\n"@ + make_output_spec(
        snippet,
        "a snippet of the edited file"@,
        (start + 1) as nat,
    )
}

/// The error text when the start of a view range is outside the file.
pub open spec fn view_bad_first_msg(a: int, b: int, n: nat) -> Seq<char> {
    "Invalid `view_range`: "@ + range_repr(a, b) + ". Its first element `"@ + dec_digits_signed(a)
        + "` should be within the range of lines of the file: [1, "@ + dec_digits(n) + "]"@
}

/// The error text when the end of a view range is before its start.
pub open spec fn view_bad_order_msg(a: int, b: int) -> Seq<char> {
    "Invalid `view_range`: "@ + range_repr(a, b) + ". Its second element `"@ + dec_digits_signed(
        b,
    ) + "` should be larger or equal than its first element `"@ + dec_digits_signed(a) + "`"@
}

/// The error text when the end of a view range is past the file.
pub open spec fn view_bad_end_msg(a: int, b: int, n: nat) -> Seq<char> {
    "Invalid `view_range`: "@ + range_repr(a, b) + ". Its second element `"@ + dec_digits_signed(
        b,
    ) + "` should be smaller than the number of lines in the file: `"@ + dec_digits(n) + "`"@
}

/// The lines `a` to `b` of `s`, 1-based and inclusive; `b == -1` means to
/// the end of the file.
pub open spec fn view_slice(s: Seq<char>, a: int, b: int) -> Seq<char> {
    let ls = line_split(s);
    let hi = if b == -1 {
        ls.len() as int
    } else {
        b
    };
    line_join(ls.subrange(a - 1, hi))
}

/// The views of a vector of strings.
pub open spec fn strs_view(vs: Seq<String>) -> Seq<Seq<char>> {
    vs.map_values(|s: String| s@)
}

/// The names that a directory listing shows: those not starting with a dot.
pub open spec fn visible(names: Seq<Seq<char>>) -> Seq<Seq<char>> {
    names.filter(|l: Seq<char>| !(l.len() > 0 && l[0] == '.'))
}

/// Each name with a directory separator appended.
pub open spec fn with_slash(names: Seq<Seq<char>>) -> Seq<Seq<char>> {
    names.map_values(|l: Seq<char>| l + seq!['/'])
}

/// Builds the error naming every line that contains `olde`.
fn build_multi_error(s: &Vec<char>, olde: &Vec<char>) -> (e: ToolError)
    ensures
        e.message@ == multi_msg(olde@, s@),
{
    let lsv = split_lines(s);
    let mut listm: Vec<char> = Vec::new();
    let mut hits: usize = 0;
    let ghost mut ns: Seq<nat> = Seq::empty();
    let mut idx: usize = 0;
    proof {
        assert(lines_view(lsv@).take(0int) =~~= Seq::<Seq<char>>::empty());
    }
    while idx < lsv.len()
        invariant
            lines_view(lsv@) == line_split(s@),
            idx <= lsv@.len(),
            ns == lines_hit(lines_view(lsv@).take(idx as int), olde@),
            listm@ == num_list(ns),
            hits == ns.len(),
            hits <= idx,
        decreases lsv@.len() - idx,
    {
        proof {
            assert(lines_view(lsv@).take(idx + 1).drop_last() =~~= lines_view(lsv@).take(
                idx as int,
            ));
            assert(lines_view(lsv@).take(idx + 1).last() == lines_view(lsv@)[idx as int]);
        }
        let hit = if olde.len() == 0 {
            true
        } else {
            match find_sub(&lsv[idx], olde, 0) {
                Some(_) => true,
                None => false,
            }
        };
        proof {
            assert(hit == contains_pat(lines_view(lsv@)[idx as int], olde@));
        }
        if hit {
            if hits > 0 {
                push_str_chars(&mut listm, ", ");
            }
            push_dec_u64(&mut listm, (idx as u64) + 1);
            proof {
                let x = (idx + 1) as nat;
                assert(ns.push(x).drop_last() =~= ns);
                assert(ns.push(x).last() == x);
                if ns.len() == 0 {
                    assert(num_list(ns.push(x)) == dec_digits(x));
                    assert(listm@ =~= num_list(ns.push(x)));
                } else {
                    assert(num_list(ns.push(x)) == num_list(ns) + ", "@ + dec_digits(x));
                    assert(listm@ =~= num_list(ns.push(x)));
                }
                ns = ns.push(x);
                assert(ns =~= lines_hit(lines_view(lsv@).take(idx + 1), olde@));
            }
            hits += 1;
        } else {
            proof {
                assert(ns =~= lines_hit(lines_view(lsv@).take(idx + 1), olde@));
            }
        }
        idx += 1;
    }
    proof {
        assert(lines_view(lsv@).take(lsv@.len() as int) =~~= lines_view(lsv@));
    }
    let mut m: Vec<char> = Vec::new();
    push_str_chars(&mut m, "No replacement was performed. Multiple occurrences of old_str `");
    push_chars(&mut m, olde);
    push_str_chars(&mut m, "` in lines [");
    push_chars(&mut m, &listm);
    push_str_chars(&mut m, "]. Please ensure it is unique");
    proof {
        assert(m@ =~= multi_msg(olde@, s@));
    }
    ToolError::new(chars_to_string(&m))
}

/// Whether a path string is absolute.
pub open spec fn is_absolute(p: Seq<char>) -> bool {
    p.len() > 0 && p[0] == '/'
}

/// `[a, b]`, the display form of a view range.
pub open spec fn range_repr(a: int, b: int) -> Seq<char> {
    "["@ + dec_digits_signed(a) + ", "@ + dec_digits_signed(b) + "]"@
}

/// The error text for each way path validation can fail, in the order the
/// checks are made.
pub open spec fn path_error(command: EditCommand, p: Seq<char>, path_exists: bool, is_dir: bool) -> Seq<
    char,
> {
    if !is_absolute(p) {
        "The path "@ + p + " is not an absolute path, it should start with `/`."@
    } else if !path_exists && !(command is Create) {
        "The path "@ + p + " does not exist. Please provide a valid path."@
    } else if path_exists && command is Create {
        "File already exists at: "@ + p + ". Cannot overwrite files using command `create`."@
    } else {
        "The path "@ + p + " is a directory and only the `view` command can be used on directories"@
    }
}

/// Whether the command may be applied to a path in the given state.
pub open spec fn path_ok(command: EditCommand, p: Seq<char>, path_exists: bool, is_dir: bool) -> bool {
    is_absolute(p) && (path_exists || command is Create) && !(path_exists && command is Create) && (!is_dir
        || command is View)
}

/// The views of a stack of file contents.
pub open spec fn stack_view(v: Seq<String>) -> Seq<Seq<char>> {
    v.map_values(|s: String| s@)
}

/// The stack recorded for path `p` in the association list `h` (empty if
/// `p` has no entry).
pub open spec fn assoc_stack(h: Seq<(String, Vec<String>)>, p: Seq<char>) -> Seq<Seq<char>>
    decreases h.len(),
{
    if h.len() == 0 {
        Seq::empty()
    } else if h[0].0@ == p {
        stack_view(h[0].1@)
    } else {
        assoc_stack(h.skip(1), p)
    }
}

/// No two entries of `h` record the same path.
pub open spec fn unique_keys(h: Seq<(String, Vec<String>)>) -> bool {
    forall|i: int, j: int|
        0 <= i < j < h.len() ==> (#[trigger] h[i]).0@ != (#[trigger] h[j]).0@
}

proof fn lemma_unique_skip(h: Seq<(String, Vec<String>)>)
    requires
        unique_keys(h),
        h.len() > 0,
    ensures
        unique_keys(h.skip(1)),
{
    assert forall|i: int, j: int|
        0 <= i < j < h.skip(1).len() implies (#[trigger] h.skip(1)[i]).0@ != (#[trigger] h.skip(
        1,
    )[j]).0@ by {
        assert(h.skip(1)[i] == h[i + 1]);
        assert(h.skip(1)[j] == h[j + 1]);
    }
}

/// The stack of a present key is the stack stored at its entry.
proof fn lemma_assoc_at(h: Seq<(String, Vec<String>)>, p: Seq<char>, i: int)
    requires
        unique_keys(h),
        0 <= i < h.len(),
        h[i].0@ == p,
    ensures
        assoc_stack(h, p) == stack_view(h[i].1@),
    decreases h.len(),
{
    if i == 0 {
    } else {
        assert(h[0].0@ != p);
        lemma_unique_skip(h);
        assert(h.skip(1)[i - 1] == h[i]);
        lemma_assoc_at(h.skip(1), p, i - 1);
    }
}

/// The stack of an absent key is empty.
proof fn lemma_assoc_absent(h: Seq<(String, Vec<String>)>, p: Seq<char>)
    requires
        forall|j: int| 0 <= j < h.len() ==> (#[trigger] h[j]).0@ != p,
    ensures
        assoc_stack(h, p) == Seq::<Seq<char>>::empty(),
    decreases h.len(),
{
    if h.len() == 0 {
        assert(assoc_stack(h, p) =~~= Seq::<Seq<char>>::empty());
    } else {
        assert(h.skip(1).len() == h.len() - 1);
        assert forall|j: int| 0 <= j < h.skip(1).len() implies (#[trigger] h.skip(1)[j]).0@
            != p by {
            assert(h.skip(1)[j] == h[j + 1]);
        }
        lemma_assoc_absent(h.skip(1), p);
    }
}

/// Replacing an entry by one with the same key changes only that key's
/// stack.
proof fn lemma_assoc_update(
    h: Seq<(String, Vec<String>)>,
    i: int,
    e: (String, Vec<String>),
    q: Seq<char>,
)
    requires
        unique_keys(h),
        0 <= i < h.len(),
        e.0@ == h[i].0@,
    ensures
        assoc_stack(h.update(i, e), q) == if q == h[i].0@ {
            stack_view(e.1@)
        } else {
            assoc_stack(h, q)
        },
        unique_keys(h.update(i, e)),
    decreases h.len(),
{
    let hu = h.update(i, e);
    assert forall|a: int, b: int| 0 <= a < b < hu.len() implies (#[trigger] hu[a]).0@
        != (#[trigger] hu[b]).0@ by {
        assert(h[a].0@ != h[b].0@);
        assert(hu[a].0@ == h[a].0@ && hu[b].0@ == h[b].0@);
    }
    if i == 0 {
        if q == h[0].0@ {
            assert(hu[0] == e);
        } else {
            assert(hu.skip(1) =~= h.skip(1));
        }
    } else {
        assert(hu[0] == h[0]);
        lemma_unique_skip(h);
        assert(hu.skip(1) =~= h.skip(1).update(i - 1, e));
        assert(h.skip(1)[i - 1] == h[i]);
        lemma_assoc_update(h.skip(1), i - 1, e, q);
        if q == h[0].0@ {
            assert(q != h[i].0@);
        }
    }
}

/// Appending an entry with a fresh key changes only that key's stack.
proof fn lemma_assoc_push(h: Seq<(String, Vec<String>)>, e: (String, Vec<String>), q: Seq<char>)
    requires
        unique_keys(h),
        forall|j: int| 0 <= j < h.len() ==> (#[trigger] h[j]).0@ != e.0@,
    ensures
        assoc_stack(h.push(e), q) == if q == e.0@ {
            stack_view(e.1@)
        } else {
            assoc_stack(h, q)
        },
        unique_keys(h.push(e)),
    decreases h.len(),
{
    let hp = h.push(e);
    assert forall|a: int, b: int| 0 <= a < b < hp.len() implies (#[trigger] hp[a]).0@
        != (#[trigger] hp[b]).0@ by {
        if b < h.len() {
            assert(hp[a] == h[a] && hp[b] == h[b]);
        } else {
            assert(hp[a] == h[a] && hp[b] == e);
        }
    }
    if h.len() == 0 {
        assert(hp[0] == e);
        assert(hp.skip(1) =~= Seq::<(String, Vec<String>)>::empty());
        if q != e.0@ {
            assert(assoc_stack(Seq::<(String, Vec<String>)>::empty(), q) == Seq::<
                Seq<char>,
            >::empty());
            assert(assoc_stack(hp, q) == assoc_stack(hp.skip(1), q));
            assert(assoc_stack(h, q) == Seq::<Seq<char>>::empty());
        } else {
            assert(assoc_stack(hp, q) == stack_view(e.1@));
        }
    } else {
        assert(hp[0] == h[0]);
        lemma_unique_skip(h);
        assert forall|j: int| 0 <= j < h.skip(1).len() implies (#[trigger] h.skip(1)[j]).0@
            != e.0@ by {
            assert(h.skip(1)[j] == h[j + 1]);
        }
        assert(hp.skip(1) =~= h.skip(1).push(e));
        lemma_assoc_push(h.skip(1), e, q);
        if q == h[0].0@ {
            assert(q != e.0@);
            assert(assoc_stack(hp, q) == stack_view(h[0].1@));
            assert(assoc_stack(h, q) == stack_view(h[0].1@));
        } else {
            assert(assoc_stack(hp, q) == assoc_stack(hp.skip(1), q));
            assert(assoc_stack(h, q) == assoc_stack(h.skip(1), q));
        }
    }
}

/// An edit followed by an undo restores the pre-edit content and the prior
/// undo history: every mutating operation pushes the pre-edit content onto
/// the path's stack, and `undo_edit` pops exactly the newest entry. So
/// repeated undos consume the stack one entry at a time until it is empty,
/// after which `undo_edit` reports that no history is left.
pub proof fn lemma_edit_then_undo(stack: Seq<Seq<char>>, pre_edit: Seq<char>)
    ensures
        stack.push(pre_edit).len() > 0,
        stack.push(pre_edit).last() == pre_edit,
        stack.push(pre_edit).drop_last() == stack,
{
    assert(stack.push(pre_edit).drop_last() =~= stack);
}

/// The text editor. It holds the per-file undo history: for each edited
/// path, the stack of full prior file contents, oldest first.
pub struct EditTool {
    history: Vec<(String, Vec<String>)>,
}

impl EditTool {
    /// The editor holds at most one history entry per path.
    pub closed spec fn wf(&self) -> bool {
        unique_keys(self.history@)
    }

    /// The undo stack recorded for path `p`: the full prior contents of the
    /// file, oldest first.
    pub closed spec fn stack_of(&self, p: Seq<char>) -> Seq<Seq<char>> {
        assoc_stack(self.history@, p)
    }

    /// A fresh editor with no undo history.
    pub fn new() -> (r: EditTool)
        ensures
            r.wf(),
            forall|p: Seq<char>| r.stack_of(p) == Seq::<Seq<char>>::empty(),
    {
        let r = EditTool { history: Vec::new() };
        proof {
            assert forall|p: Seq<char>| r.stack_of(p) == Seq::<Seq<char>>::empty() by {
                assert(assoc_stack(r.history@, p) =~~= Seq::<Seq<char>>::empty());
            }
        }
        r
    }

    /// The index of the entry for `path`, if one exists.
    fn find_entry(&self, path: &String) -> (r: Option<usize>)
        ensures
            match r {
                Some(i) => i < self.history@.len() && self.history@[i as int].0@ == path@,
                None => forall|j: int|
                    0 <= j < self.history@.len() ==> (#[trigger] self.history@[j]).0@ != path@,
            },
    {
        let mut i: usize = 0;
        while i < self.history.len()
            invariant
                i <= self.history@.len(),
                forall|j: int| 0 <= j < i ==> (#[trigger] self.history@[j]).0@ != path@,
            decreases self.history@.len() - i,
        {
            if self.history[i].0.eq(path) {
                return Some(i);
            }
            i += 1;
        }
        None
    }

    /// Records `content` as the newest undo entry for `path`.
    fn push_history(&mut self, path: &String, content: String)
        requires
            old(self).wf(),
        ensures
            final(self).wf(),
            final(self).stack_of(path@) == old(self).stack_of(path@).push(content@),
            forall|q: Seq<char>|
                q != path@ ==> #[trigger] final(self).stack_of(q) == old(self).stack_of(q),
    {
        let ghost h0 = self.history@;
        match self.find_entry(path) {
            Some(i) => {
                proof {
                    lemma_assoc_at(h0, path@, i as int);
                }
                let mut entry = self.history.remove(i);
                let ghost st0 = entry.1@;
                entry.1.push(content);
                proof {
                    assert(stack_view(entry.1@) =~~= stack_view(st0).push(content@));
                }
                self.history.insert(i, entry);
                proof {
                    assert(self.history@ =~= h0.update(i as int, (entry.0, entry.1)));
                    assert(h0[i as int].0@ == path@);
                    lemma_assoc_update(h0, i as int, (entry.0, entry.1), path@);
                    assert forall|q: Seq<char>| q != path@ implies #[trigger] assoc_stack(
                        self.history@,
                        q,
                    ) == assoc_stack(h0, q) by {
                        lemma_assoc_update(h0, i as int, (entry.0, entry.1), q);
                    }
                }
            },
            None => {
                proof {
                    lemma_assoc_absent(h0, path@);
                }
                let mut stack: Vec<String> = Vec::new();
                stack.push(content);
                let ghost e_stack = stack@;
                let key = path.clone();
                self.history.push((key, stack));
                proof {
                    let e = self.history@.last();
                    assert(self.history@ =~= h0.push(e));
                    assert(e.0@ == path@);
                    assert(stack_view(e.1@) =~~= Seq::<Seq<char>>::empty().push(content@));
                    lemma_assoc_push(h0, e, path@);
                    assert(final(self).stack_of(path@) =~~= old(self).stack_of(path@).push(
                        content@,
                    ));
                    assert forall|q: Seq<char>| q != path@ implies #[trigger] assoc_stack(
                        self.history@,
                        q,
                    ) == assoc_stack(h0, q) by {
                        lemma_assoc_push(h0, e, q);
                    }
                }
            },
        }
    }

    /// Removes and returns the newest undo entry for `path`, if any.
    fn pop_history(&mut self, path: &String) -> (r: Option<String>)
        requires
            old(self).wf(),
        ensures
            final(self).wf(),
            match r {
                Some(s) => old(self).stack_of(path@).len() > 0 && s@ == old(self).stack_of(
                    path@,
                ).last() && final(self).stack_of(path@) == old(self).stack_of(path@).drop_last(),
                None => old(self).stack_of(path@).len() == 0 && *final(self) == *old(self),
            },
            forall|q: Seq<char>|
                q != path@ ==> #[trigger] final(self).stack_of(q) == old(self).stack_of(q),
    {
        let ghost h0 = self.history@;
        match self.find_entry(path) {
            Some(i) => {
                proof {
                    lemma_assoc_at(h0, path@, i as int);
                }
                if self.history[i].1.len() == 0 {
                    return None;
                }
                let mut entry = self.history.remove(i);
                let ghost st0 = entry.1@;
                let s = match entry.1.pop() {
                    Some(s) => s,
                    None => {
                        proof {
                            assert(false);
                        }
                        unreached()
                    },
                };
                proof {
                    assert(stack_view(entry.1@) =~~= stack_view(st0).drop_last());
                    assert(s@ == stack_view(st0).last());
                }
                self.history.insert(i, entry);
                proof {
                    assert(self.history@ =~= h0.update(i as int, (entry.0, entry.1)));
                    assert(h0[i as int].0@ == path@);
                    lemma_assoc_update(h0, i as int, (entry.0, entry.1), path@);
                    assert forall|q: Seq<char>| q != path@ implies #[trigger] assoc_stack(
                        self.history@,
                        q,
                    ) == assoc_stack(h0, q) by {
                        lemma_assoc_update(h0, i as int, (entry.0, entry.1), q);
                    }
                }
                Some(s)
            },
            None => {
                proof {
                    lemma_assoc_absent(h0, path@);
                }
                None
            },
        }
    }

    /// Creates a file: records `file_text` as the newest undo entry for
    /// `path` and reports success; the caller writes that text to disk
    /// verbatim. A missing `file_text` is a validation error and changes
    /// nothing.
    pub fn create(&mut self, path: &String, file_text: Option<&String>) -> (r: Result<
        ToolResult,
        ToolError,
    >)
        requires
            old(self).wf(),
        ensures
            final(self).wf(),
            match r {
                Ok(res) => file_text is Some && final(self).stack_of(path@) == old(
                    self,
                ).stack_of(path@).push(file_text->0@) && (forall|q: Seq<char>|
                    q != path@ ==> #[trigger] final(self).stack_of(q) == old(self).stack_of(q))
                    && str_opt(res.output) == Some(
                    "File created successfully at: "@ + path@,
                ) && res.error is None && res.base64_image is None && res.system is None,
                Err(e) => file_text is None && *final(self) == *old(self) && e.message@
                    == "Parameter `file_text` is required for command: create"@,
            },
    {
        match file_text {
            None => {
                let mut m: Vec<char> = Vec::new();
                push_str_chars(&mut m, "Parameter `file_text` is required for command: create");
                Err(ToolError::new(chars_to_string(&m)))
            },
            Some(t) => {
                self.push_history(path, t.clone());
                let mut m: Vec<char> = Vec::new();
                push_str_chars(&mut m, "File created successfully at: ");
                push_str_chars(&mut m, path.as_str());
                Ok(ToolResult::success(chars_to_string(&m)))
            },
        }
    }

    /// Undoes the most recent edit of `path`: pops the newest undo entry and
    /// returns it for the caller to write back, with a rendering of the
    /// restored content. An empty or absent history is an error and changes
    /// nothing.
    pub fn undo_edit(&mut self, path: &String) -> (r: Result<(String, ToolResult), ToolError>)
        requires
            old(self).wf(),
        ensures
            final(self).wf(),
            match r {
                Ok(pair) => old(self).stack_of(path@).len() > 0 && pair.0@ == old(self).stack_of(
                    path@,
                ).last() && final(self).stack_of(path@) == old(self).stack_of(path@).drop_last()
                    && (forall|q: Seq<char>|
                    q != path@ ==> #[trigger] final(self).stack_of(q) == old(self).stack_of(q))
                    && str_opt(pair.1.output) == Some(
                    "Last edit to "@ + path@ + " undone successfully.\n\n"@ + make_output_spec(
                        pair.0@,
                        path@,
                        1,
                    ),
                ) && pair.1.error is None && pair.1.base64_image is None && pair.1.system is None,
                Err(e) => old(self).stack_of(path@).len() == 0 && *final(self) == *old(self)
                    && e.message@ == "No edit history found for "@ + path@,
            },
    {
        match self.pop_history(path) {
            Some(restored) => {
                let content = str_to_chars(restored.as_str());
                let rendering = render_output(&content, path.as_str(), 1);
                let mut m: Vec<char> = Vec::new();
                push_str_chars(&mut m, "Last edit to ");
                push_str_chars(&mut m, path.as_str());
                push_str_chars(&mut m, " undone successfully.\n\n");
                push_chars(&mut m, &rendering);
                let res = ToolResult::success(chars_to_string(&m));
                Ok((restored, res))
            },
            None => {
                let mut m: Vec<char> = Vec::new();
                push_str_chars(&mut m, "No edit history found for ");
                push_str_chars(&mut m, path.as_str());
                Err(ToolError::new(chars_to_string(&m)))
            },
        }
    }

    /// Replaces the unique occurrence of `old_str` in `file_content` by
    /// `new_str` (tabs in both normalized to four spaces, `new_str`
    /// defaulting to empty), records the pre-edit content as the newest
    /// undo entry for `path`, and returns the new content for the caller to
    /// write, with a result showing a snippet around the edit. Zero
    /// occurrences and several occurrences are errors that change nothing,
    /// the latter naming every line that contains the string.
    pub fn str_replace(
        &mut self,
        path: &String,
        file_content: &String,
        old_str: Option<&String>,
        new_str: Option<&String>,
    ) -> (r: Result<(String, ToolResult), ToolError>)
        requires
            old(self).wf(),
            file_content@.len() <= MAX_FILE_SIZE,
            old_str matches Some(os) ==> os@.len() <= MAX_FILE_SIZE,
            new_str matches Some(ns) ==> ns@.len() <= MAX_FILE_SIZE,
        ensures
            final(self).wf(),
            match r {
                Ok(pair) => old_str matches Some(os) && {
                    let olde = expand_tabs_spec(os@);
                    let newe = match new_str {
                        Some(ns) => expand_tabs_spec(ns@),
                        None => Seq::<char>::empty(),
                    };
                    let s = file_content@;
                    &&& count_occurrences(s, olde) == 1
                    &&& pair.0@ == replaced_content(s, olde, newe)
                    &&& str_opt(pair.1.output) == Some(replace_msg(path@, s, olde, newe))
                    &&& pair.1.error is None
                    &&& pair.1.base64_image is None
                    &&& pair.1.system is None
                    &&& final(self).stack_of(path@) == old(self).stack_of(path@).push(s)
                    &&& forall|q: Seq<char>|
                        q != path@ ==> #[trigger] final(self).stack_of(q) == old(self).stack_of(q)
                },
                Err(e) => *final(self) == *old(self) && match old_str {
                    None => e.message@
                        == "Parameter `old_str` is required for command: str_replace"@,
                    Some(os) => {
                        let olde = expand_tabs_spec(os@);
                        let s = file_content@;
                        ||| (count_occurrences(s, olde) == 0 && e.message@ == not_found_msg(
                            olde,
                            path@,
                        ))
                        ||| (count_occurrences(s, olde) > 1 && e.message@ == multi_msg(olde, s))
                    },
                },
            },
    {
        let old_s = match old_str {
            None => {
                let mut m: Vec<char> = Vec::new();
                push_str_chars(&mut m, "Parameter `old_str` is required for command: str_replace");
                return Err(ToolError::new(chars_to_string(&m)));
            },
            Some(o) => o,
        };
        let s = str_to_chars(file_content.as_str());
        let oc = str_to_chars(old_s.as_str());
        let olde = expand_tabs(&oc);
        let newe = match new_str {
            Some(n) => {
                let nc = str_to_chars(n.as_str());
                expand_tabs(&nc)
            },
            None => Vec::new(),
        };
        let hit: usize;
        if olde.len() == 0 {
            if s.len() > 0 {
                proof {
                    assert(count_occurrences(s@, olde@) == s@.len() + 1);
                }
                return Err(build_multi_error(&s, &olde));
            }
            hit = 0;
            proof {
                assert(s@.subrange(0, 0) =~= olde@);
                assert(matches_at(s@, olde@, 0));
                assert(count_occurrences(s@, olde@) == 1);
            }
        } else {
            match find_sub(&s, &olde, 0) {
                None => {
                    proof {
                        lemma_count_none(s@, olde@);
                    }
                    let mut m: Vec<char> = Vec::new();
                    push_str_chars(&mut m, "No replacement was performed, old_str `");
                    push_chars(&mut m, &olde);
                    push_str_chars(&mut m, "` did not appear verbatim in ");
                    push_str_chars(&mut m, path.as_str());
                    proof {
                        assert(m@ =~= not_found_msg(olde@, path@));
                    }
                    return Err(ToolError::new(chars_to_string(&m)));
                },
                Some(i) => {
                    match find_sub(&s, &olde, i + olde.len()) {
                        Some(j) => {
                            proof {
                                lemma_count_first(s@, olde@, i as int);
                                lemma_matches_skip(
                                    s@,
                                    olde@,
                                    i + olde@.len(),
                                    j - i - olde@.len(),
                                );
                                assert(matches_at(
                                    s@.skip(i + olde@.len()),
                                    olde@,
                                    j - i - olde@.len(),
                                ));
                                lemma_count_pos(s@.skip(i + olde@.len()), olde@);
                                assert(count_occurrences(s@, olde@) > 1);
                            }
                            return Err(build_multi_error(&s, &olde));
                        },
                        None => {
                            hit = i;
                            proof {
                                lemma_count_first(s@, olde@, i as int);
                                assert forall|k: int| 0 <= k implies !#[trigger] matches_at(
                                    s@.skip(i + olde@.len()),
                                    olde@,
                                    k,
                                ) by {
                                    lemma_matches_skip(s@, olde@, i + olde@.len(), k);
                                }
                                assert(!has_match_from(s@.skip(i + olde@.len()), olde@, 0));
                                lemma_count_none(s@.skip(i + olde@.len()), olde@);
                                assert(count_occurrences(s@, olde@) == 1);
                            }
                        },
                    }
                },
            }
        }
        proof {
            assert(matches_at(s@, olde@, hit as int) && (forall|j: int|
                0 <= j < hit ==> !matches_at(s@, olde@, j)));
            let c = first_hit(s@, olde@);
            assert(matches_at(s@, olde@, c) && (forall|j: int|
                0 <= j < c ==> !matches_at(s@, olde@, j)));
            if c < hit {
                assert(!matches_at(s@, olde@, c));
            }
            if c > hit {
                assert(!matches_at(s@, olde@, hit as int));
            }
            assert(c == hit);
        }
        let m_len = olde.len();
        let mut nc = subrange_chars(&s, 0, hit);
        proof {
            assert(s@.subrange(0, hit as int) =~= s@.take(hit as int));
        }
        push_chars(&mut nc, &newe);
        let rest = subrange_chars(&s, hit + m_len, s.len());
        proof {
            assert(s@.subrange(hit + m_len, s@.len() as int) =~= s@.skip(hit + m_len));
        }
        push_chars(&mut nc, &rest);
        proof {
            assert(nc@ =~= replaced_content(s@, olde@, newe@));
        }
        let prefix = subrange_chars(&s, 0, hit);
        let rl = count_char_in(&prefix, '\n');
        let start: usize = if rl >= 4 {
            rl - 4
        } else {
            0
        };
        let newlines_added = count_char_in(&newe, '\n');
        proof {
            match new_str {
                Some(ns) => lemma_expand_tabs_len(ns@),
                None => (),
            }
            assert(newe@.len() <= 4 * MAX_FILE_SIZE);
            assert(rl <= MAX_FILE_SIZE);
        }
        let end_line = rl + 4 + newlines_added;
        let lsv = split_lines(&nc);
        proof {
            lemma_line_split_count(nc@);
            assert(nc@.take(hit as int) =~= s@.take(hit as int));
            lemma_count_char_take(nc@, '\n', hit as int);
            assert(count_char(nc@, '\n') >= rl);
            assert(lsv@.len() > rl);
        }
        let hi: usize = if end_line + 1 <= lsv.len() {
            end_line + 1
        } else {
            lsv.len()
        };
        let snip_lines = subrange_lines(&lsv, start, hi);
        let snippet = join_lines(&snip_lines);
        let mut desc: Vec<char> = Vec::new();
        push_str_chars(&mut desc, "a snippet of ");
        push_str_chars(&mut desc, path.as_str());
        let desc_s = chars_to_string(&desc);
        let rendering = render_output(&snippet, desc_s.as_str(), start + 1);
        let mut msg: Vec<char> = Vec::new();
        push_str_chars(&mut msg, "The file ");
        push_str_chars(&mut msg, path.as_str());
        push_str_chars(&mut msg, " has been edited. \n\n");
        push_chars(&mut msg, &rendering);
        proof {
            assert(msg@ =~= replace_msg(path@, s@, olde@, newe@));
        }
        self.push_history(path, file_content.clone());
        Ok((chars_to_string(&nc), ToolResult::success(chars_to_string(&msg))))
    }

    /// Inserts `new_str` (tabs normalized to four spaces) after line
    /// `insert_line` of `file_content` (0 meaning before the first line),
    /// records the pre-edit content as the newest undo entry for `path`,
    /// and returns the new content for the caller to write, with a result
    /// showing a snippet around the insertion point. A position outside
    /// `[0, number of lines]` is a validation error and changes nothing.
    pub fn insert(
        &mut self,
        path: &String,
        file_content: &String,
        insert_line: Option<i32>,
        new_str: Option<&String>,
    ) -> (r: Result<(String, ToolResult), ToolError>)
        requires
            old(self).wf(),
            file_content@.len() <= MAX_FILE_SIZE,
            new_str matches Some(ns) ==> ns@.len() <= MAX_FILE_SIZE,
        ensures
            final(self).wf(),
            match r {
                Ok(pair) => insert_line matches Some(k) && new_str matches Some(ns) && 0 <= k
                    && k <= line_split(file_content@).len() && {
                    let newe = expand_tabs_spec(ns@);
                    let s = file_content@;
                    &&& pair.0@ == line_join(inserted_lines(s, k as int, newe))
                    &&& str_opt(pair.1.output) == Some(insert_msg(path@, s, k as int, newe))
                    &&& pair.1.error is None
                    &&& pair.1.base64_image is None
                    &&& pair.1.system is None
                    &&& final(self).stack_of(path@) == old(self).stack_of(path@).push(s)
                    &&& forall|q: Seq<char>|
                        q != path@ ==> #[trigger] final(self).stack_of(q) == old(self).stack_of(q)
                },
                Err(e) => *final(self) == *old(self) && match insert_line {
                    None => e.message@
                        == "Parameter `insert_line` is required for command: insert"@,
                    Some(k) => match new_str {
                        None => e.message@
                            == "Parameter `new_str` is required for command: insert"@,
                        Some(ns) => (k < 0 || k > line_split(file_content@).len())
                            && e.message@ == insert_bad_line_msg(
                            k as int,
                            line_split(file_content@).len(),
                        ),
                    },
                },
            },
    {
        let k_arg = match insert_line {
            None => {
                let mut m: Vec<char> = Vec::new();
                push_str_chars(
                    &mut m,
                    "Parameter `insert_line` is required for command: insert",
                );
                return Err(ToolError::new(chars_to_string(&m)));
            },
            Some(k) => k,
        };
        let new_s = match new_str {
            None => {
                let mut m: Vec<char> = Vec::new();
                push_str_chars(&mut m, "Parameter `new_str` is required for command: insert");
                return Err(ToolError::new(chars_to_string(&m)));
            },
            Some(n) => n,
        };
        let s = str_to_chars(file_content.as_str());
        let nsc = str_to_chars(new_s.as_str());
        let newe = expand_tabs(&nsc);
        let lsv = split_lines(&s);
        let n_lines = lsv.len();
        proof {
            lemma_line_split_count(s@);
            lemma_count_char_le(s@, '\n');
            assert(n_lines <= MAX_FILE_SIZE + 1);
        }
        if k_arg < 0 || (k_arg as usize) > n_lines {
            let mut m: Vec<char> = Vec::new();
            push_str_chars(&mut m, "Invalid `insert_line` parameter: ");
            push_dec_i64(&mut m, k_arg as i64);
            push_str_chars(&mut m, ". It should be within the range of lines of the file: [0, ");
            push_dec_u64(&mut m, n_lines as u64);
            push_str_chars(&mut m, "]");
            proof {
                assert(m@ =~= insert_bad_line_msg(k_arg as int, line_split(file_content@).len()));
            }
            return Err(ToolError::new(chars_to_string(&m)));
        }
        let k = k_arg as usize;
        let nlv = split_lines(&newe);
        proof {
            lemma_expand_tabs_len(new_s@);
            lemma_line_split_count(newe@);
            lemma_count_char_le(newe@, '\n');
            lemma_line_split_len(newe@);
            assert(nlv@.len() <= 4 * MAX_FILE_SIZE + 1);
        }
        let mut merged = subrange_lines(&lsv, 0, k);
        append_lines(&mut merged, &nlv);
        let tail = subrange_lines(&lsv, k, n_lines);
        append_lines(&mut merged, &tail);
        proof {
            assert(lines_view(lsv@).subrange(0, k as int) =~~= line_split(s@).take(k as int));
            assert(lines_view(lsv@).subrange(k as int, n_lines as int) =~~= line_split(s@).skip(
                k as int,
            ));
            assert(lines_view(merged@) =~~= inserted_lines(s@, k as int, newe@));
        }
        let new_content = join_lines(&merged);
        let start: usize = if k >= 4 {
            k - 4
        } else {
            0
        };
        let end: usize = if k + nlv.len() + 4 <= merged.len() {
            k + nlv.len() + 4
        } else {
            merged.len()
        };
        proof {
            assert(merged@.len() == k + nlv@.len() + (n_lines - k));
            assert(start <= end <= merged@.len());
        }
        let snip_lines = subrange_lines(&merged, start, end);
        let snippet = join_lines(&snip_lines);
        let rendering = render_output(&snippet, "a snippet of the edited file", start + 1);
        let mut msg: Vec<char> = Vec::new();
        push_str_chars(&mut msg, "The file ");
        push_str_chars(&mut msg, path.as_str());
        push_str_chars(&mut msg, " has been edited. \n\n");
        push_chars(&mut msg, &rendering);
        proof {
            assert(msg@ =~= insert_msg(path@, s@, k as int, newe@));
        }
        self.push_history(path, file_content.clone());
        Ok((chars_to_string(&new_content), ToolResult::success(chars_to_string(&msg))))
    }

    /// Shows `file_content` (read by the caller) with numbered lines:
    /// whole, or the 1-based inclusive range `view_range` (`-1` as its
    /// second element meaning to the end of the file). A malformed or
    /// out-of-bounds range is a validation error.
    pub fn view_file(
        &self,
        path: &String,
        file_content: &String,
        view_range: Option<&Vec<i32>>,
    ) -> (r: Result<ToolResult, ToolError>)
        requires
            file_content@.len() <= MAX_FILE_SIZE,
        ensures
            ({
                let s = file_content@;
                let n = line_split(s).len();
                match view_range {
                    None => r matches Ok(res) && str_opt(res.output) == Some(
                        make_output_spec(s, path@, 1),
                    ) && res.error is None && res.base64_image is None && res.system is None,
                    Some(rg) => {
                        if rg@.len() != 2 {
                            r matches Err(e) && e.message@
                                == "Invalid `view_range`. It should be a list of two integers."@
                        } else {
                            let a = rg@[0] as int;
                            let b = rg@[1] as int;
                            if a < 1 || a > n {
                                r matches Err(e) && e.message@ == view_bad_first_msg(a, b, n)
                            } else if b != -1 && b < a {
                                r matches Err(e) && e.message@ == view_bad_order_msg(a, b)
                            } else if b != -1 && b > n {
                                r matches Err(e) && e.message@ == view_bad_end_msg(a, b, n)
                            } else {
                                r matches Ok(res) && str_opt(res.output) == Some(
                                    make_output_spec(view_slice(s, a, b), path@, a as nat),
                                ) && res.error is None && res.base64_image is None
                                    && res.system is None
                            }
                        }
                    },
                }
            }),
    {
        let s = str_to_chars(file_content.as_str());
        let rg = match view_range {
            None => {
                let rendering = render_output(&s, path.as_str(), 1);
                return Ok(ToolResult::success(chars_to_string(&rendering)));
            },
            Some(rg) => rg,
        };
        let lsv = split_lines(&s);
        let n = lsv.len();
        proof {
            lemma_line_split_count(s@);
            lemma_count_char_le(s@, '\n');
            assert(n <= MAX_FILE_SIZE + 1);
        }
        if rg.len() != 2 {
            let mut m: Vec<char> = Vec::new();
            push_str_chars(&mut m, "Invalid `view_range`. It should be a list of two integers.");
            return Err(ToolError::new(chars_to_string(&m)));
        }
        let a = rg[0];
        let b = rg[1];
        if a < 1 || (a as i64) > (n as i64) {
            let mut m: Vec<char> = Vec::new();
            push_str_chars(&mut m, "Invalid `view_range`: ");
            push_str_chars(&mut m, "[");
            push_dec_i64(&mut m, a as i64);
            push_str_chars(&mut m, ", ");
            push_dec_i64(&mut m, b as i64);
            push_str_chars(&mut m, "]");
            push_str_chars(&mut m, ". Its first element `");
            push_dec_i64(&mut m, a as i64);
            push_str_chars(&mut m, "` should be within the range of lines of the file: [1, ");
            push_dec_u64(&mut m, n as u64);
            push_str_chars(&mut m, "]");
            proof {
                assert(m@ =~= view_bad_first_msg(a as int, b as int, line_split(s@).len()));
            }
            return Err(ToolError::new(chars_to_string(&m)));
        }
        if b != -1 && b < a {
            let mut m: Vec<char> = Vec::new();
            push_str_chars(&mut m, "Invalid `view_range`: ");
            push_str_chars(&mut m, "[");
            push_dec_i64(&mut m, a as i64);
            push_str_chars(&mut m, ", ");
            push_dec_i64(&mut m, b as i64);
            push_str_chars(&mut m, "]");
            push_str_chars(&mut m, ". Its second element `");
            push_dec_i64(&mut m, b as i64);
            push_str_chars(&mut m, "` should be larger or equal than its first element `");
            push_dec_i64(&mut m, a as i64);
            push_str_chars(&mut m, "`");
            proof {
                assert(m@ =~= view_bad_order_msg(a as int, b as int));
            }
            return Err(ToolError::new(chars_to_string(&m)));
        }
        if b != -1 && (b as i64) > (n as i64) {
            let mut m: Vec<char> = Vec::new();
            push_str_chars(&mut m, "Invalid `view_range`: ");
            push_str_chars(&mut m, "[");
            push_dec_i64(&mut m, a as i64);
            push_str_chars(&mut m, ", ");
            push_dec_i64(&mut m, b as i64);
            push_str_chars(&mut m, "]");
            push_str_chars(&mut m, ". Its second element `");
            push_dec_i64(&mut m, b as i64);
            push_str_chars(&mut m, "` should be smaller than the number of lines in the file: `");
            push_dec_u64(&mut m, n as u64);
            push_str_chars(&mut m, "`");
            proof {
                assert(m@ =~= view_bad_end_msg(a as int, b as int, line_split(s@).len()));
            }
            return Err(ToolError::new(chars_to_string(&m)));
        }
        let lo = (a as usize) - 1;
        let hi: usize = if b == -1 {
            n
        } else {
            b as usize
        };
        let slice = subrange_lines(&lsv, lo, hi);
        let content = join_lines(&slice);
        proof {
            assert(content@ == view_slice(s@, a as int, b as int));
        }
        let rendering = render_output(&content, path.as_str(), a as usize);
        Ok(ToolResult::success(chars_to_string(&rendering)))
    }

    /// Lists a directory for the caller (who reads the entries): the
    /// non-hidden names, directories first with a trailing separator, both
    /// groups sorted. A view range makes no sense on a directory and is a
    /// validation error.
    pub fn view_directory(
        &self,
        path: &String,
        dirs: &Vec<String>,
        files: &Vec<String>,
        view_range_given: bool,
    ) -> (r: Result<ToolResult, ToolError>)
        ensures
            view_range_given ==> (r matches Err(e) && e.message@
                == "The view_range parameter is not allowed when `path` points to a directory."@),
            !view_range_given ==> (r matches Ok(res) && res.error is None && res.base64_image is None
                && res.system is None && (exists|sd: Seq<Seq<char>>, sf: Seq<Seq<char>>|
                sorted_lex(sd) && sd.to_multiset() == with_slash(
                    visible(strs_view(dirs@)),
                ).to_multiset() && sorted_lex(sf) && sf.to_multiset() == visible(
                    strs_view(files@),
                ).to_multiset() && str_opt(res.output) == Some(
                    "Contents of directory "@ + path@ + ":\n\nDirectories:\n"@ + line_join(sd)
                        + "\n\nFiles:\n"@ + line_join(sf),
                ))),
    {
        broadcast use Seq::lemma_filter_push;

        if view_range_given {
            let mut m: Vec<char> = Vec::new();
            push_str_chars(
                &mut m,
                "The view_range parameter is not allowed when `path` points to a directory.",
            );
            return Err(ToolError::new(chars_to_string(&m)));
        }
        let mut dv: Vec<Vec<char>> = Vec::new();
        let mut i: usize = 0;
        proof {
            assert(strs_view(dirs@.take(0int)) =~~= Seq::<Seq<char>>::empty());
            assert(visible(Seq::<Seq<char>>::empty()) =~~= Seq::<Seq<char>>::empty());
            assert(lines_view(dv@) =~~= with_slash(visible(strs_view(dirs@.take(0int)))));
        }
        while i < dirs.len()
            invariant
                i <= dirs@.len(),
                lines_view(dv@) == with_slash(visible(strs_view(dirs@.take(i as int)))),
            decreases dirs@.len() - i,
        {
            broadcast use Seq::lemma_filter_push;

            let mut dc = str_to_chars(dirs[i].as_str());
            proof {
                assert(strs_view(dirs@.take(i + 1)) =~~= strs_view(dirs@.take(i as int)).push(
                    dc@,
                ));
            }
            let hidden = dc.len() > 0 && dc[0] == '.';
            if !hidden {
                let ghost before = dc@;
                dc.push('/');
                proof {
                    assert(dc@ =~= before + seq!['/']);
                    assert(with_slash(visible(strs_view(dirs@.take(i as int))).push(before))
                        =~~= with_slash(visible(strs_view(dirs@.take(i as int)))).push(dc@));
                    assert(lines_view(dv@.push(dc)) =~~= lines_view(dv@).push(dc@));
                }
                dv.push(dc);
            }
            proof {
                assert(lines_view(dv@) =~~= with_slash(visible(strs_view(dirs@.take(i + 1)))));
            }
            i += 1;
        }
        proof {
            assert(dirs@.take(dirs@.len() as int) =~= dirs@);
        }
        let mut fv: Vec<Vec<char>> = Vec::new();
        let mut j: usize = 0;
        proof {
            assert(strs_view(files@.take(0int)) =~~= Seq::<Seq<char>>::empty());
            assert(lines_view(fv@) =~~= visible(strs_view(files@.take(0int))));
        }
        while j < files.len()
            invariant
                j <= files@.len(),
                lines_view(fv@) == visible(strs_view(files@.take(j as int))),
            decreases files@.len() - j,
        {
            broadcast use Seq::lemma_filter_push;

            let fc = str_to_chars(files[j].as_str());
            proof {
                assert(strs_view(files@.take(j + 1)) =~~= strs_view(files@.take(j as int)).push(
                    fc@,
                ));
            }
            let hidden = fc.len() > 0 && fc[0] == '.';
            if !hidden {
                proof {
                    assert(lines_view(fv@.push(fc)) =~~= lines_view(fv@).push(fc@));
                }
                fv.push(fc);
            }
            proof {
                assert(lines_view(fv@) =~~= visible(strs_view(files@.take(j + 1))));
            }
            j += 1;
        }
        proof {
            assert(files@.take(files@.len() as int) =~= files@);
        }
        let sd = sort_lines(dv);
        let sf = sort_lines(fv);
        let sdj = join_lines(&sd);
        let sfj = join_lines(&sf);
        let mut m: Vec<char> = Vec::new();
        push_str_chars(&mut m, "Contents of directory ");
        push_str_chars(&mut m, path.as_str());
        push_str_chars(&mut m, ":\n\nDirectories:\n");
        push_chars(&mut m, &sdj);
        push_str_chars(&mut m, "\n\nFiles:\n");
        push_chars(&mut m, &sfj);
        let res = ToolResult::success(chars_to_string(&m));
        proof {
            let wd = lines_view(sd@);
            let wf = lines_view(sf@);
            assert(str_opt(res.output) == Some(
                "Contents of directory "@ + path@ + ":\n\nDirectories:\n"@ + line_join(wd)
                    + "\n\nFiles:\n"@ + line_join(wf),
            )) by {
                assert(m@ =~= "Contents of directory "@ + path@ + ":\n\nDirectories:\n"@
                    + line_join(wd) + "\n\nFiles:\n"@ + line_join(wf));
            }
        }
        Ok(res)
    }

    /// Renders `content` with numbered lines under a header naming
    /// `file_descriptor`, eliding the middle of overlong content, as
    /// `make_output_spec` describes.
    pub fn make_output(
        &self,
        content: &String,
        file_descriptor: &String,
        init_line: usize,
    ) -> (r: String)
        ensures
            r@ == make_output_spec(content@, file_descriptor@, init_line as nat),
    {
        let cv = str_to_chars(content.as_str());
        let rendering = render_output(&cv, file_descriptor.as_str(), init_line);
        chars_to_string(&rendering)
    }

    /// Checks that `path` (with the given filesystem state: whether it
    /// exists, and whether it is a directory) admits `command`: the path
    /// must be absolute; every command but `create` needs an existing path;
    /// `create` refuses an existing one; only `view` accepts a directory.
    pub fn validate_path(
        &self,
        command: &EditCommand,
        path: &String,
        path_exists: bool,
        is_dir: bool,
    ) -> (r: Result<(), ToolError>)
        ensures
            r is Ok <==> path_ok(*command, path@, path_exists, is_dir),
            r is Err ==> r->Err_0.message@ == path_error(*command, path@, path_exists, is_dir),
    {
        let pc = str_to_chars(path.as_str());
        let absolute = pc.len() > 0 && pc[0] == '/';
        if !absolute {
            let mut m: Vec<char> = Vec::new();
            push_str_chars(&mut m, "The path ");
            push_str_chars(&mut m, path.as_str());
            push_str_chars(&mut m, " is not an absolute path, it should start with `/`.");
            return Err(ToolError::new(chars_to_string(&m)));
        }
        let creating = match command {
            EditCommand::Create => true,
            _ => false,
        };
        if !path_exists && !creating {
            let mut m: Vec<char> = Vec::new();
            push_str_chars(&mut m, "The path ");
            push_str_chars(&mut m, path.as_str());
            push_str_chars(&mut m, " does not exist. Please provide a valid path.");
            return Err(ToolError::new(chars_to_string(&m)));
        }
        if path_exists && creating {
            let mut m: Vec<char> = Vec::new();
            push_str_chars(&mut m, "File already exists at: ");
            push_str_chars(&mut m, path.as_str());
            push_str_chars(&mut m, ". Cannot overwrite files using command `create`.");
            return Err(ToolError::new(chars_to_string(&m)));
        }
        let viewing = match command {
            EditCommand::View => true,
            _ => false,
        };
        if is_dir && !viewing {
            let mut m: Vec<char> = Vec::new();
            push_str_chars(&mut m, "The path ");
            push_str_chars(&mut m, path.as_str());
            push_str_chars(
                &mut m,
                " is a directory and only the `view` command can be used on directories",
            );
            return Err(ToolError::new(chars_to_string(&m)));
        }
        Ok(())
    }

    /// Checks the size of a file against the largest size the editor reads.
    pub fn check_file_size(&self, path: &String, size: u64) -> (r: Result<(), ToolError>)
        ensures
            r is Ok <==> size <= MAX_FILE_SIZE,
            r is Err ==> r->Err_0.message@ == "The file "@ + path@ + " is too large ("@
                + dec_digits(size as nat) + " bytes); the limit is "@ + dec_digits(
                MAX_FILE_SIZE as nat,
            ) + " bytes. Use the view_range parameter to read specific line ranges."@,
    {
        if size <= MAX_FILE_SIZE {
            Ok(())
        } else {
            let mut m: Vec<char> = Vec::new();
            push_str_chars(&mut m, "The file ");
            push_str_chars(&mut m, path.as_str());
            push_str_chars(&mut m, " is too large (");
            push_dec_u64(&mut m, size);
            push_str_chars(&mut m, " bytes); the limit is ");
            push_dec_u64(&mut m, MAX_FILE_SIZE);
            push_str_chars(
                &mut m,
                " bytes. Use the view_range parameter to read specific line ranges.",
            );
            Err(ToolError::new(chars_to_string(&m)))
        }
    }
}

} // verus!
