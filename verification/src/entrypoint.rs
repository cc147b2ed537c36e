//! The entry-point editor. The managed library's `lib.rs` holds one `mod`
//! declaration and one registration call per module; creating a module
//! inserts both lines and destroying a module filters both out again. The
//! insertion offsets are found by line-pattern matches, as a maintainer
//! hand-editing the file would find them: a declaration goes after the last
//! line that looks like a `mod` item, the first registration goes right
//! after the opening of the initialization function, and every later one
//! goes after the last line that looks like a registration call.

use vstd::prelude::*;
use vstd::string::*;

use crate::manifest::Config;
use crate::names::{pascal_of, snake_of, to_pascal_case, to_snake_case};
use crate::text::{join_lines, line_matches, line_matches_pat, spec_lines, spec_trim, spec_unlines,
    split_lines, str_eq, trim_str, views_of};

verus! {

/// A line that looks like a module declaration: `mod` somewhere on it, with a
/// `;` at or after the end of the `mod`.
pub open spec fn matches_decl_pattern(line: Seq<char>) -> bool {
    line_matches(line, "mod"@, ';')
}

/// A line that looks like a registration call: `handle` somewhere on it, with
/// a `;` at or after the end of the `handle`.
pub open spec fn matches_reg_pattern(line: Seq<char>) -> bool {
    line_matches(line, "handle"@, ';')
}

/// Index of the last line before `n` matching the pattern, or `-1`.
pub open spec fn last_match_up_to(
    lines: Seq<Seq<char>>,
    stem: Seq<char>,
    close: char,
    n: int,
) -> int
    decreases n when 0 <= n <= lines.len()
{
    if n <= 0 {
        -1
    } else if line_matches(lines[n - 1], stem, close) {
        n - 1
    } else {
        last_match_up_to(lines, stem, close, n - 1)
    }
}

/// Index of the first line at or after `i` matching the pattern, or `-1`.
pub open spec fn first_match_from(
    lines: Seq<Seq<char>>,
    stem: Seq<char>,
    close: char,
    i: int,
) -> int
    decreases lines.len() - i when 0 <= i <= lines.len()
{
    if i >= lines.len() {
        -1
    } else if line_matches(lines[i], stem, close) {
        i
    } else {
        first_match_from(lines, stem, close, i + 1)
    }
}

pub proof fn lemma_last_match_up_to(lines: Seq<Seq<char>>, stem: Seq<char>, close: char, n: int)
    requires
        0 <= n <= lines.len(),
    ensures
        -1 <= last_match_up_to(lines, stem, close, n) < n,
        last_match_up_to(lines, stem, close, n) >= 0 ==> line_matches(
            lines[last_match_up_to(lines, stem, close, n)],
            stem,
            close,
        ),
        forall|k: int|
            last_match_up_to(lines, stem, close, n) < k < n ==> !line_matches(
                #[trigger] lines[k],
                stem,
                close,
            ),
    decreases n,
{
    if n > 0 && !line_matches(lines[n - 1], stem, close) {
        lemma_last_match_up_to(lines, stem, close, n - 1);
    }
}

pub proof fn lemma_first_match_from(lines: Seq<Seq<char>>, stem: Seq<char>, close: char, i: int)
    requires
        0 <= i <= lines.len(),
    ensures
        first_match_from(lines, stem, close, i) == -1 || first_match_from(lines, stem, close, i)
            >= i,
        first_match_from(lines, stem, close, i) == -1 ==> forall|k: int|
            i <= k < lines.len() ==> !line_matches(#[trigger] lines[k], stem, close),
        first_match_from(lines, stem, close, i) >= 0 ==> first_match_from(lines, stem, close, i)
            < lines.len() && line_matches(lines[first_match_from(lines, stem, close, i)], stem,
            close) && forall|k: int|
            i <= k < first_match_from(lines, stem, close, i) ==> !line_matches(
                #[trigger] lines[k],
                stem,
                close,
            ),
    decreases lines.len() - i,
{
    if i < lines.len() && !line_matches(lines[i], stem, close) {
        lemma_first_match_from(lines, stem, close, i + 1);
    }
}

/// Where a new line is inserted: one past the first matching line when
/// `use_first` is set, one past the last matching line otherwise, and the
/// very beginning when no line matches.
pub open spec fn spec_insert_pos(
    lines: Seq<Seq<char>>,
    stem: Seq<char>,
    close: char,
    use_first: bool,
) -> int {
    if use_first {
        first_match_from(lines, stem, close, 0) + 1
    } else {
        last_match_up_to(lines, stem, close, lines.len() as int) + 1
    }
}

pub proof fn lemma_insert_pos_bounds(
    lines: Seq<Seq<char>>,
    stem: Seq<char>,
    close: char,
    use_first: bool,
)
    ensures
        0 <= spec_insert_pos(lines, stem, close, use_first) <= lines.len(),
{
    if use_first {
        lemma_first_match_from(lines, stem, close, 0);
    } else {
        lemma_last_match_up_to(lines, stem, close, lines.len() as int);
    }
}

/// Finds the line index at which a new line belongs, searching for lines that
/// match the pattern `<stem> ... <close>`.
#[verifier::loop_isolation(false)]
pub fn get_insert_location(lines: &Vec<String>, stem: &str, close: char, use_first: bool) -> (pos:
    usize)
    ensures
        pos as int == spec_insert_pos(views_of(lines@), stem@, close, use_first),
        pos <= lines@.len(),
{
    let ghost lv = views_of(lines@);
    if use_first {
        let mut i: usize = 0;
        while i < lines.len()
            invariant
                i <= lv.len(),
                first_match_from(lv, stem@, close, 0) == first_match_from(lv, stem@, close,
                    i as int),
            decreases lv.len() - i,
        {
            proof {
                assert(lv[i as int] == lines@[i as int]@);
            }
            if line_matches_pat(lines[i].as_str(), stem, close) {
                return i + 1;
            }
            i = i + 1;
        }
        0
    } else {
        let mut i: usize = 0;
        let mut pos: usize = 0;
        while i < lines.len()
            invariant
                i <= lv.len(),
                pos <= i,
                pos as int == last_match_up_to(lv, stem@, close, i as int) + 1,
            decreases lv.len() - i,
        {
            proof {
                assert(lv[i as int] == lines@[i as int]@);
                lemma_last_match_up_to(lv, stem@, close, i as int);
            }
            if line_matches_pat(lines[i].as_str(), stem, close) {
                pos = i + 1;
            }
            i = i + 1;
        }
        pos
    }
}

/// The declaration line of a module: `mod <snake>;`.
pub open spec fn spec_decl_line(snake: Seq<char>) -> Seq<char> {
    "mod "@ + snake + ";"@
}

/// The registration line of a module: a plain `add_class` call, or an
/// `add_tool_class` call for a plugin's tool script.
pub open spec fn spec_reg_line(snake: Seq<char>, pascal: Seq<char>, is_tool: bool) -> Seq<char> {
    if is_tool {
        "handle.add_tool_class::<"@ + snake + "::"@ + pascal + ">();"@
    } else {
        "handle.add_class::<"@ + snake + "::"@ + pascal + ">();"@
    }
}

/// Builds the declaration line of a module.
pub fn decl_line(snake: &str) -> (r: String)
    ensures
        r@ == spec_decl_line(snake@),
{
    let mut r = "mod ".to_owned();
    r.append(snake);
    r.append(";");
    r
}

/// Builds the registration line of a module.
pub fn reg_line(snake: &str, pascal: &str, is_tool: bool) -> (r: String)
    ensures
        r@ == spec_reg_line(snake@, pascal@, is_tool),
{
    let mut r = if is_tool {
        "handle.add_tool_class::<".to_owned()
    } else {
        "handle.add_class::<".to_owned()
    };
    r.append(snake);
    r.append("::");
    r.append(pascal);
    r.append(">();");
    r
}

/// Inserting a module's two lines into the entry-point lines: the declaration
/// after the last declaration-pattern match, then the registration either
/// right after the initialization function's opening (for the very first
/// module) or after the last registration-pattern match.
pub open spec fn spec_insert_module(
    lines: Seq<Seq<char>>,
    snake: Seq<char>,
    pascal: Seq<char>,
    is_tool: bool,
    is_first: bool,
) -> Seq<Seq<char>> {
    let with_decl = lines.insert(
        spec_insert_pos(lines, "mod"@, ';', false),
        spec_decl_line(snake),
    );
    let reg_pos = if is_first {
        spec_insert_pos(with_decl, "init"@, '{', true)
    } else {
        spec_insert_pos(with_decl, "handle"@, ';', false)
    };
    with_decl.insert(reg_pos, spec_reg_line(snake, pascal, is_tool))
}

/// Adds one module's declaration and registration lines to the entry-point
/// source. The module's names are derived from `name` by case conversion;
/// the registration is a tool-class call when the library is a plugin, and
/// counts as the first ever when the manifest tracks no module yet.
pub fn add_module_to_lib(name: &str, config: &Config, lib_contents: &str) -> (r: String)
    ensures
        r@ == spec_unlines(
            spec_insert_module(
                spec_lines(lib_contents@),
                snake_of(name@),
                pascal_of(name@),
                config.is_plugin,
                config.modules@.len() == 0,
            ),
        ),
{
    let snake = to_snake_case(name);
    let pascal = to_pascal_case(name);
    let is_first = config.modules.len() == 0;

    let mut lines = split_lines(lib_contents);
    let ghost lines0 = views_of(lines@);

    proof {
        lemma_insert_pos_bounds(lines0, "mod"@, ';', false);
    }
    let decl_pos = get_insert_location(&lines, "mod", ';', false);
    let decl = decl_line(snake.as_str());
    lines.insert(decl_pos, decl);
    proof {
        assert(views_of(lines@) =~= lines0.insert(decl_pos as int, spec_decl_line(snake_of(
            name@,
        ))));
    }
    let ghost lines1 = views_of(lines@);

    proof {
        lemma_insert_pos_bounds(lines1, "init"@, '{', true);
        lemma_insert_pos_bounds(lines1, "handle"@, ';', false);
    }
    let reg_pos = if is_first {
        get_insert_location(&lines, "init", '{', true)
    } else {
        get_insert_location(&lines, "handle", ';', false)
    };
    let reg = reg_line(snake.as_str(), pascal.as_str(), config.is_plugin);
    lines.insert(reg_pos, reg);
    proof {
        assert(views_of(lines@) =~= lines1.insert(reg_pos as int, spec_reg_line(snake_of(name@),
            pascal_of(name@), config.is_plugin)));
    }
    join_lines(&lines)
}

/// A line that belongs to the module and is filtered out when the module is
/// destroyed: its trimmed text equals the declaration line or either kind of
/// registration line.
pub open spec fn is_removed_line(l: Seq<char>, snake: Seq<char>, pascal: Seq<char>) -> bool {
    ||| spec_trim(l) == spec_decl_line(snake)
    ||| spec_trim(l) == spec_reg_line(snake, pascal, false)
    ||| spec_trim(l) == spec_reg_line(snake, pascal, true)
}

/// The predicate under which a line survives the removal of a module.
pub open spec fn keep_pred(snake: Seq<char>, pascal: Seq<char>) -> spec_fn(Seq<char>) -> bool {
    |l: Seq<char>| !is_removed_line(l, snake, pascal)
}

/// Removing a module from the entry-point lines: every line whose trimmed
/// text equals its declaration or one of its registration forms is dropped.
pub open spec fn spec_remove_module(
    lines: Seq<Seq<char>>,
    snake: Seq<char>,
    pascal: Seq<char>,
) -> Seq<Seq<char>> {
    lines.filter(keep_pred(snake, pascal))
}

/// Removes every trace of a module from the entry-point source: the `mod`
/// declaration and both possible registration lines, matched by exact
/// trimmed-line equality. A line the user has edited no longer matches and
/// silently stays.
#[verifier::loop_isolation(false)]
pub fn remove_module_from_lib_file(name: &str, lib_contents: &str) -> (r: String)
    ensures
        r@ == spec_unlines(
            spec_remove_module(spec_lines(lib_contents@), snake_of(name@), pascal_of(name@)),
        ),
{
    let snake = to_snake_case(name);
    let pascal = to_pascal_case(name);
    let decl = decl_line(snake.as_str());
    let reg_plain = reg_line(snake.as_str(), pascal.as_str(), false);
    let reg_tool = reg_line(snake.as_str(), pascal.as_str(), true);

    let lines = split_lines(lib_contents);
    let ghost lv = views_of(lines@);
    let ghost keep = keep_pred(snake_of(name@), pascal_of(name@));

    let mut kept: Vec<String> = Vec::new();
    proof {
        assert(lv.take(0).filter(keep) =~= Seq::<Seq<char>>::empty()) by {
            assert(lv.take(0) =~= Seq::<Seq<char>>::empty());
            reveal(Seq::filter);
        }
        assert(views_of(kept@) =~= Seq::<Seq<char>>::empty());
    }
    let mut i: usize = 0;
    while i < lines.len()
        invariant
            i <= lv.len(),
            views_of(kept@) == lv.take(i as int).filter(keep),
        decreases lv.len() - i,
    {
        proof {
            assert(lv[i as int] == lines@[i as int]@);
            assert(lv.take(i + 1).drop_last() =~= lv.take(i as int));
            assert(lv.take(i + 1).last() == lv[i as int]);
            reveal(Seq::filter);
        }
        let t = trim_str(lines[i].as_str());
        let is_match = str_eq(t.as_str(), decl.as_str()) || str_eq(t.as_str(), reg_plain.as_str())
            || str_eq(t.as_str(), reg_tool.as_str());
        if !is_match {
            let line = lines[i].clone();
            kept.push(line);
            proof {
                assert(views_of(kept@) =~= lv.take(i as int).filter(keep).push(lv[i as int]));
                assert(lv.take(i + 1).filter(keep) == lv.take(i as int).filter(keep).push(
                    lv[i as int],
                ));
            }
        } else {
            proof {
                assert(lv.take(i + 1).filter(keep) == lv.take(i as int).filter(keep));
            }
        }
        i = i + 1;
    }
    proof {
        assert(lv.take(lv.len() as int) =~= lv);
    }
    join_lines(&kept)
}

/// The entry-point source a fresh library starts with: the prelude import,
/// an empty initialization function, and the initialization macro call.
pub open spec fn spec_initial_lib_lines() -> Seq<Seq<char>> {
    seq![
        "use gdnative::prelude::*;"@,
        "fn init(handle: InitHandle) {"@,
        "}"@,
        "godot_init!(init);"@,
    ]
}

/// The initial entry-point source as one text.
pub open spec fn spec_initial_lib_file() -> Seq<char> {
    spec_unlines(spec_initial_lib_lines())
}

/// Returns the entry-point source a fresh library starts with.
pub fn create_initial_lib_file() -> (r: String)
    ensures
        r@ == spec_initial_lib_file(),
{
    let mut lines: Vec<String> = Vec::new();
    lines.push("use gdnative::prelude::*;".to_owned());
    lines.push("fn init(handle: InitHandle) {".to_owned());
    lines.push("}".to_owned());
    lines.push("godot_init!(init);".to_owned());
    proof {
        assert(views_of(lines@) =~~= spec_initial_lib_lines());
    }
    join_lines(&lines)
}

// ---------------------------------------------------------------------------
// Laws: what creating and destroying modules does to the entry-point text.
// ---------------------------------------------------------------------------

/// Filtering after a push keeps or drops exactly the pushed element.
proof fn lemma_filter_push<A>(s: Seq<A>, x: A, pred: spec_fn(A) -> bool)
    ensures
        s.push(x).filter(pred) == if pred(x) {
            s.filter(pred).push(x)
        } else {
            s.filter(pred)
        },
{
    reveal(Seq::filter);
    assert(s.push(x).drop_last() =~= s);
    assert(s.push(x).last() == x);
}

/// Inserting an element the predicate drops leaves the filtered sequence
/// unchanged.
proof fn lemma_filter_insert_dropped<A>(s: Seq<A>, i: int, x: A, pred: spec_fn(A) -> bool)
    requires
        0 <= i <= s.len(),
        !pred(x),
    ensures
        s.insert(i, x).filter(pred) == s.filter(pred),
{
    let a = s.subrange(0, i);
    let b = s.subrange(i, s.len() as int);
    Seq::filter_distributes_over_add(a.push(x), b, pred);
    lemma_filter_push(a, x, pred);
    Seq::filter_distributes_over_add(a, b, pred);
    assert(a + b =~= s);
}

/// Inserting an element changes the filtered length by one exactly when the
/// predicate keeps the element.
proof fn lemma_filter_insert_len<A>(s: Seq<A>, i: int, x: A, pred: spec_fn(A) -> bool)
    requires
        0 <= i <= s.len(),
    ensures
        s.insert(i, x).filter(pred).len() == s.filter(pred).len() + if pred(x) {
            1int
        } else {
            0int
        },
{
    let a = s.subrange(0, i);
    let b = s.subrange(i, s.len() as int);
    Seq::filter_distributes_over_add(a.push(x), b, pred);
    lemma_filter_push(a, x, pred);
    Seq::filter_distributes_over_add(a, b, pred);
    assert(a + b =~= s);
}

/// A sequence every element of which the predicate keeps filters to itself.
proof fn lemma_filter_all_kept<A>(s: Seq<A>, pred: spec_fn(A) -> bool)
    requires
        forall|k: int| 0 <= k < s.len() ==> pred(#[trigger] s[k]),
    ensures
        s.filter(pred) == s,
    decreases s.len(),
{
    reveal(Seq::filter);
    if s.len() > 0 {
        lemma_filter_all_kept(s.drop_last(), pred);
        assert(pred(s.last()));
        assert(s.drop_last().push(s.last()) =~= s);
    }
}

/// A sequence no element of which the predicate keeps filters to nothing.
proof fn lemma_filter_none<A>(s: Seq<A>, pred: spec_fn(A) -> bool)
    requires
        forall|k: int| 0 <= k < s.len() ==> !pred(#[trigger] s[k]),
    ensures
        s.filter(pred) == Seq::<A>::empty(),
    decreases s.len(),
{
    reveal(Seq::filter);
    if s.len() > 0 {
        lemma_filter_none(s.drop_last(), pred);
        assert(!pred(s.last()));
    }
}

/// A module's own declaration and registration lines are exactly what its
/// removal filters out.
pub proof fn lemma_inserted_lines_are_removed(snake: Seq<char>, pascal: Seq<char>, is_tool: bool)
    ensures
        is_removed_line(spec_decl_line(snake), snake, pascal),
        is_removed_line(spec_reg_line(snake, pascal, is_tool), snake, pascal),
{
    reveal_strlit("mod ");
    reveal_strlit(";");
    reveal_strlit("handle.add_class::<");
    reveal_strlit("handle.add_tool_class::<");
    reveal_strlit("::");
    reveal_strlit(">();");
    let d = spec_decl_line(snake);
    assert(d[0] == 'm');
    assert(d[d.len() - 1] == ';');
    crate::text::lemma_trim_of_clean(d);
    let r = spec_reg_line(snake, pascal, is_tool);
    assert(r[0] == 'h');
    assert(r[r.len() - 1] == ';');
    crate::text::lemma_trim_of_clean(r);
}

/// Law: creating a module and then destroying it restores the entry-point
/// lines exactly, provided no pre-existing line already reads as one of the
/// module's own lines.
pub proof fn lemma_create_destroy_round_trip(
    lines: Seq<Seq<char>>,
    snake: Seq<char>,
    pascal: Seq<char>,
    is_tool: bool,
    is_first: bool,
)
    requires
        forall|k: int|
            0 <= k < lines.len() ==> !is_removed_line(#[trigger] lines[k], snake, pascal),
    ensures
        spec_remove_module(spec_insert_module(lines, snake, pascal, is_tool, is_first), snake,
            pascal) == lines,
{
    let keep = keep_pred(snake, pascal);
    lemma_inserted_lines_are_removed(snake, pascal, is_tool);
    let d = spec_decl_line(snake);
    let r = spec_reg_line(snake, pascal, is_tool);
    let p1: int = spec_insert_pos(lines, "mod"@, ';', false);
    lemma_insert_pos_bounds(lines, "mod"@, ';', false);
    let l1 = lines.insert(p1, d);
    lemma_filter_insert_dropped(lines, p1, d, keep);
    let p2: int = if is_first {
        spec_insert_pos(l1, "init"@, '{', true)
    } else {
        spec_insert_pos(l1, "handle"@, ';', false)
    };
    lemma_insert_pos_bounds(l1, "init"@, '{', true);
    lemma_insert_pos_bounds(l1, "handle"@, ';', false);
    lemma_filter_insert_dropped(l1, p2, r, keep);
    lemma_filter_all_kept(lines, keep);
}

/// Law, at the level of whole texts: creating a module in an entry-point
/// source and then destroying it gives the source back, character for
/// character, provided no pre-existing line already reads as one of the
/// module's own lines.
pub proof fn lemma_create_destroy_text_round_trip(
    text: Seq<char>,
    snake: Seq<char>,
    pascal: Seq<char>,
    is_tool: bool,
    is_first: bool,
)
    requires
        forall|k: int| 0 <= k < snake.len() ==> snake[k] != '\n',
        forall|k: int| 0 <= k < pascal.len() ==> pascal[k] != '\n',
        forall|k: int|
            0 <= k < spec_lines(text).len() ==> !is_removed_line(
                #[trigger] spec_lines(text)[k],
                snake,
                pascal,
            ),
    ensures
        spec_unlines(
            spec_remove_module(
                spec_lines(spec_unlines(spec_insert_module(spec_lines(text), snake, pascal,
                    is_tool, is_first))),
                snake,
                pascal,
            ),
        ) == text,
{
    let lines = spec_lines(text);
    let inserted = spec_insert_module(lines, snake, pascal, is_tool, is_first);
    crate::text::lemma_lines_len(text);
    crate::text::lemma_lines_no_newline_inside(text);
    lemma_insert_module_lines_clean(lines, snake, pascal, is_tool, is_first);
    crate::text::lemma_lines_of_unlines(inserted);
    lemma_create_destroy_round_trip(lines, snake, pascal, is_tool, is_first);
    crate::text::lemma_unlines_of_lines(text);
}

/// No line of an entry-point source gains a newline by a module insertion:
/// the two inserted lines hold none, and the rest come from the split.
proof fn lemma_insert_module_lines_clean(
    lines: Seq<Seq<char>>,
    snake: Seq<char>,
    pascal: Seq<char>,
    is_tool: bool,
    is_first: bool,
)
    requires
        forall|i: int, k: int|
            0 <= i < lines.len() && 0 <= k < lines[i].len() ==> lines[i][k] != '\n',
        forall|k: int| 0 <= k < snake.len() ==> snake[k] != '\n',
        forall|k: int| 0 <= k < pascal.len() ==> pascal[k] != '\n',
    ensures
        spec_insert_module(lines, snake, pascal, is_tool, is_first).len() >= 1,
        forall|i: int, k: int|
            0 <= i < spec_insert_module(lines, snake, pascal, is_tool, is_first).len() && 0 <= k
                < spec_insert_module(lines, snake, pascal, is_tool, is_first)[i].len()
                ==> spec_insert_module(lines, snake, pascal, is_tool, is_first)[i][k] != '\n',
{
    reveal_strlit("mod ");
    reveal_strlit(";");
    reveal_strlit("handle.add_class::<");
    reveal_strlit("handle.add_tool_class::<");
    reveal_strlit("::");
    reveal_strlit(">();");
    let d = spec_decl_line(snake);
    let r = spec_reg_line(snake, pascal, is_tool);
    assert(forall|k: int| 0 <= k < d.len() ==> d[k] != '\n');
    assert(forall|k: int| 0 <= k < r.len() ==> r[k] != '\n');
    let p1: int = spec_insert_pos(lines, "mod"@, ';', false);
    lemma_insert_pos_bounds(lines, "mod"@, ';', false);
    let l1 = lines.insert(p1, d);
    lines.insert_ensures(p1, d);
    lemma_insert_pos_bounds(l1, "init"@, '{', true);
    lemma_insert_pos_bounds(l1, "handle"@, ';', false);
    let p2: int = if is_first {
        spec_insert_pos(l1, "init"@, '{', true)
    } else {
        spec_insert_pos(l1, "handle"@, ';', false)
    };
    l1.insert_ensures(p2, r);
    assert(forall|i: int, k: int|
        0 <= i < l1.len() && 0 <= k < l1[i].len() ==> l1[i][k] != '\n');
}

/// Law: after destroying a module, not one line of the resulting entry-point
/// source reads as the module's declaration or registration.
pub proof fn lemma_destroy_leaves_no_matching_line(
    text: Seq<char>,
    snake: Seq<char>,
    pascal: Seq<char>,
)
    ensures
        forall|k: int|
            0 <= k < spec_lines(
                spec_unlines(spec_remove_module(spec_lines(text), snake, pascal)),
            ).len() ==> !is_removed_line(
                #[trigger] spec_lines(
                    spec_unlines(spec_remove_module(spec_lines(text), snake, pascal)),
                )[k],
                snake,
                pascal,
            ),
{
    let keep = keep_pred(snake, pascal);
    let lines = spec_lines(text);
    let filtered = spec_remove_module(lines, snake, pascal);
    crate::text::lemma_lines_no_newline_inside(text);
    lemma_filter_no_newline(lines, keep);
    assert(forall|k: int| 0 <= k < filtered.len() ==> keep(#[trigger] filtered[k])) by {
        assert forall|k: int| 0 <= k < filtered.len() implies keep(#[trigger] filtered[k]) by {
            Seq::lemma_filter_pred(lines, keep, k);
        }
    }
    if filtered.len() == 0 {
        assert(spec_unlines(filtered) =~= Seq::<char>::empty());
        crate::text::lemma_lines_all_clean(Seq::<char>::empty());
        assert(spec_lines(spec_unlines(filtered)) =~~= seq![Seq::<char>::empty()]);
        lemma_empty_line_not_removed(snake, pascal);
    } else {
        crate::text::lemma_lines_of_unlines(filtered);
    }
}

/// The empty line is never a module's declaration or registration line.
proof fn lemma_empty_line_not_removed(snake: Seq<char>, pascal: Seq<char>)
    ensures
        !is_removed_line(Seq::<char>::empty(), snake, pascal),
{
    reveal_strlit("mod ");
    reveal_strlit(";");
    reveal_strlit("handle.add_class::<");
    reveal_strlit("handle.add_tool_class::<");
    reveal_strlit("::");
    reveal_strlit(">();");
    assert(spec_trim(Seq::<char>::empty()) =~= Seq::<char>::empty());
    assert(spec_decl_line(snake).len() >= 5);
    assert(spec_reg_line(snake, pascal, false).len() >= 10);
    assert(spec_reg_line(snake, pascal, true).len() >= 10);
}

/// A line whose trimmed text starts with `mod ` and ends with `;`: a module
/// declaration statement.
pub open spec fn is_decl_stmt(l: Seq<char>) -> bool {
    let t = spec_trim(l);
    t.len() > 4 && t.subrange(0, 4) == "mod "@ && t[t.len() - 1] == ';'
}

/// A line whose trimmed text starts with `handle.add` and ends with `;`: a
/// module registration statement.
pub open spec fn is_reg_stmt(l: Seq<char>) -> bool {
    let t = spec_trim(l);
    t.len() > 10 && t.subrange(0, 10) == "handle.add"@ && t[t.len() - 1] == ';'
}

/// The declaration-statement predicate, as one term for counting.
pub open spec fn decl_stmt_pred() -> spec_fn(Seq<char>) -> bool {
    |l: Seq<char>| is_decl_stmt(l)
}

/// The registration-statement predicate, as one term for counting.
pub open spec fn reg_stmt_pred() -> spec_fn(Seq<char>) -> bool {
    |l: Seq<char>| is_reg_stmt(l)
}

/// How many lines are module declaration statements.
pub open spec fn decl_count(lines: Seq<Seq<char>>) -> int {
    lines.filter(decl_stmt_pred()).len() as int
}

/// How many lines are module registration statements.
pub open spec fn reg_count(lines: Seq<Seq<char>>) -> int {
    lines.filter(reg_stmt_pred()).len() as int
}

/// A module's declaration line is a declaration statement and not a
/// registration statement.
proof fn lemma_decl_line_stmt(snake: Seq<char>)
    ensures
        is_decl_stmt(spec_decl_line(snake)),
        !is_reg_stmt(spec_decl_line(snake)),
{
    reveal_strlit("mod ");
    reveal_strlit(";");
    reveal_strlit("handle.add");
    let d = spec_decl_line(snake);
    assert(d[0] == 'm');
    assert(d[d.len() - 1] == ';');
    crate::text::lemma_trim_of_clean(d);
    assert(d.subrange(0, 4) =~= "mod "@);
    if is_reg_stmt(d) {
        assert(d.subrange(0, 10)[0] == d[0]);
        assert(false);
    }
}

/// A module's registration line is a registration statement and not a
/// declaration statement.
proof fn lemma_reg_line_stmt(snake: Seq<char>, pascal: Seq<char>, is_tool: bool)
    ensures
        is_reg_stmt(spec_reg_line(snake, pascal, is_tool)),
        !is_decl_stmt(spec_reg_line(snake, pascal, is_tool)),
{
    reveal_strlit("mod ");
    reveal_strlit("handle.add");
    reveal_strlit("handle.add_class::<");
    reveal_strlit("handle.add_tool_class::<");
    reveal_strlit("::");
    reveal_strlit(">();");
    let r = spec_reg_line(snake, pascal, is_tool);
    assert(r[0] == 'h');
    assert(r[r.len() - 1] == ';');
    crate::text::lemma_trim_of_clean(r);
    assert(r.subrange(0, 10) =~= "handle.add"@);
    if is_decl_stmt(r) {
        assert(r.subrange(0, 4)[0] == r[0]);
        assert(false);
    }
}

/// Law (one step): inserting a module adds exactly one declaration statement
/// and exactly one registration statement to the entry-point lines.
pub proof fn lemma_insert_module_counts(
    lines: Seq<Seq<char>>,
    snake: Seq<char>,
    pascal: Seq<char>,
    is_tool: bool,
    is_first: bool,
)
    ensures
        decl_count(spec_insert_module(lines, snake, pascal, is_tool, is_first)) == decl_count(
            lines,
        ) + 1,
        reg_count(spec_insert_module(lines, snake, pascal, is_tool, is_first)) == reg_count(
            lines,
        ) + 1,
{
    let d = spec_decl_line(snake);
    let r = spec_reg_line(snake, pascal, is_tool);
    lemma_decl_line_stmt(snake);
    lemma_reg_line_stmt(snake, pascal, is_tool);
    let p1: int = spec_insert_pos(lines, "mod"@, ';', false);
    lemma_insert_pos_bounds(lines, "mod"@, ';', false);
    let l1 = lines.insert(p1, d);
    lemma_filter_insert_len(lines, p1, d, decl_stmt_pred());
    lemma_filter_insert_len(lines, p1, d, reg_stmt_pred());
    let p2: int = if is_first {
        spec_insert_pos(l1, "init"@, '{', true)
    } else {
        spec_insert_pos(l1, "handle"@, ';', false)
    };
    lemma_insert_pos_bounds(l1, "init"@, '{', true);
    lemma_insert_pos_bounds(l1, "handle"@, ';', false);
    lemma_filter_insert_len(l1, p2, r, decl_stmt_pred());
    lemma_filter_insert_len(l1, p2, r, reg_stmt_pred());
}

/// Inserting a run of modules one after the other. The pair holds a module's
/// snake and pascal forms; the insertion that sees an empty manifest counts
/// as the first.
pub open spec fn spec_insert_all(
    lines: Seq<Seq<char>>,
    names: Seq<(Seq<char>, Seq<char>)>,
    is_tool: bool,
    created_before: nat,
) -> Seq<Seq<char>>
    decreases names.len(),
{
    if names.len() == 0 {
        lines
    } else {
        spec_insert_all(
            spec_insert_module(lines, names[0].0, names[0].1, is_tool, created_before == 0),
            names.drop_first(),
            is_tool,
            created_before + 1,
        )
    }
}

/// Inserting a run of modules adds as many declaration statements and as many
/// registration statements as there are modules.
pub proof fn lemma_insert_all_counts(
    lines: Seq<Seq<char>>,
    names: Seq<(Seq<char>, Seq<char>)>,
    is_tool: bool,
    created_before: nat,
)
    ensures
        decl_count(spec_insert_all(lines, names, is_tool, created_before)) == decl_count(lines)
            + names.len(),
        reg_count(spec_insert_all(lines, names, is_tool, created_before)) == reg_count(lines)
            + names.len(),
    decreases names.len(),
{
    if names.len() > 0 {
        lemma_insert_module_counts(lines, names[0].0, names[0].1, is_tool, created_before == 0);
        lemma_insert_all_counts(
            spec_insert_module(lines, names[0].0, names[0].1, is_tool, created_before == 0),
            names.drop_first(),
            is_tool,
            created_before + 1,
        );
    }
}

/// A line that is not blank and whose first character is neither whitespace
/// nor `m` nor `h` is neither kind of statement.
proof fn lemma_not_stmt(l: Seq<char>)
    requires
        l.len() > 0,
        !crate::text::is_ws_char(l[0]),
        l[0] != 'm',
        l[0] != 'h',
    ensures
        !is_decl_stmt(l),
        !is_reg_stmt(l),
{
    reveal_strlit("mod ");
    reveal_strlit("handle.add");
    let t = spec_trim(l);
    crate::text::lemma_last_non_ws_before(l, l.len() as int);
    let b: int = crate::text::last_non_ws_before(l, l.len() as int);
    if b == 0 {
        assert(crate::text::is_ws_char(l[0]));
        assert(false);
    }
    assert(t == l.subrange(0, b));
    assert(t.len() > 0 ==> t[0] == l[0]);
    if is_decl_stmt(l) {
        assert(t.subrange(0, 4)[0] == t[0]);
        assert(false);
    }
    if is_reg_stmt(l) {
        assert(t.subrange(0, 10)[0] == t[0]);
        assert(false);
    }
}

/// What a line of the initial entry-point source looks like: not blank, and
/// starting with a character that opens no statement of interest.
spec fn harmless_line(l: Seq<char>) -> bool {
    &&& l.len() > 0
    &&& !crate::text::is_ws_char(l[0])
    &&& l[0] != 'm'
    &&& l[0] != 'h'
    &&& forall|k: int| 0 <= k < l.len() ==> l[k] != '\n'
}

proof fn lemma_initial_line_0()
    ensures
        harmless_line("use gdnative::prelude::*;"@),
{
    reveal_strlit("use gdnative::prelude::*;");
}

proof fn lemma_initial_line_1()
    ensures
        harmless_line("fn init(handle: InitHandle) {"@),
{
    reveal_strlit("fn init(handle: InitHandle) {");
}

proof fn lemma_initial_line_2()
    ensures
        harmless_line("}"@),
{
    reveal_strlit("}");
}

proof fn lemma_initial_line_3()
    ensures
        harmless_line("godot_init!(init);"@),
{
    reveal_strlit("godot_init!(init);");
}

/// The initial entry-point source splits back into its four lines, and holds
/// no declaration and no registration statement.
pub proof fn lemma_initial_lib_file_shape()
    ensures
        spec_lines(spec_initial_lib_file()) == spec_initial_lib_lines(),
        decl_count(spec_lines(spec_initial_lib_file())) == 0,
        reg_count(spec_lines(spec_initial_lib_file())) == 0,
{
    lemma_initial_line_0();
    lemma_initial_line_1();
    lemma_initial_line_2();
    lemma_initial_line_3();
    let ls = spec_initial_lib_lines();
    assert(forall|k: int| 0 <= k < ls.len() ==> harmless_line(#[trigger] ls[k]));
    assert(forall|i: int, k: int|
        0 <= i < ls.len() && 0 <= k < ls[i].len() ==> ls[i][k] != '\n');
    crate::text::lemma_lines_of_unlines(ls);
    assert forall|k: int| 0 <= k < ls.len() implies !decl_stmt_pred()(#[trigger] ls[k])
        && !reg_stmt_pred()(#[trigger] ls[k]) by {
        lemma_not_stmt(ls[k]);
    }
    lemma_filter_none(ls, decl_stmt_pred());
    lemma_filter_none(ls, reg_stmt_pred());
}

/// Law: after creating a run of modules in a fresh entry-point source, there
/// are exactly as many declaration statements and exactly as many
/// registration statements as modules created.
pub proof fn lemma_module_creation_counts(names: Seq<(Seq<char>, Seq<char>)>, is_tool: bool)
    ensures
        decl_count(spec_insert_all(spec_lines(spec_initial_lib_file()), names, is_tool, 0))
            == names.len(),
        reg_count(spec_insert_all(spec_lines(spec_initial_lib_file()), names, is_tool, 0))
            == names.len(),
{
    lemma_initial_lib_file_shape();
    lemma_insert_all_counts(spec_lines(spec_initial_lib_file()), names, is_tool, 0);
}

/// The declaration statements of the entry-point lines, in order.
pub open spec fn decl_stmts(lines: Seq<Seq<char>>) -> Seq<Seq<char>> {
    lines.filter(decl_stmt_pred())
}

/// The registration statements of the entry-point lines, in order.
pub open spec fn reg_stmts(lines: Seq<Seq<char>>) -> Seq<Seq<char>> {
    lines.filter(reg_stmt_pred())
}

/// A declaration statement always matches the declaration line pattern.
proof fn lemma_decl_stmt_matches_pattern(l: Seq<char>)
    requires
        is_decl_stmt(l),
    ensures
        matches_decl_pattern(l),
{
    reveal_strlit("mod ");
    reveal_strlit("mod");
    let t = spec_trim(l);
    let a: int = crate::text::first_non_ws_at(l, 0);
    let b: int = crate::text::last_non_ws_before(l, l.len() as int);
    crate::text::lemma_first_non_ws_at(l, 0);
    crate::text::lemma_last_non_ws_before(l, l.len() as int);
    assert(a < b);
    assert(t == l.subrange(a, b));
    assert(t.len() == b - a);
    assert forall|k: int| 0 <= k < 3 implies l[a + k] == "mod"@[k] by {
        assert(t.subrange(0, 4)[k] == t[k]);
        assert(t[k] == l[a + k]);
    }
    assert(l.subrange(a, a + 3) =~= "mod"@);
    assert(crate::text::occurs_at(l, "mod"@, a));
    assert(l[b - 1] == ';') by {
        assert(t[t.len() - 1] == ';');
    }
    assert(a + 3 <= b - 1 < l.len());
}

/// A registration statement always matches the registration line pattern.
proof fn lemma_reg_stmt_matches_pattern(l: Seq<char>)
    requires
        is_reg_stmt(l),
    ensures
        matches_reg_pattern(l),
{
    reveal_strlit("handle.add");
    reveal_strlit("handle");
    let t = spec_trim(l);
    let a: int = crate::text::first_non_ws_at(l, 0);
    let b: int = crate::text::last_non_ws_before(l, l.len() as int);
    crate::text::lemma_first_non_ws_at(l, 0);
    crate::text::lemma_last_non_ws_before(l, l.len() as int);
    assert(a < b);
    assert(t == l.subrange(a, b));
    assert(t.len() == b - a);
    assert forall|k: int| 0 <= k < 6 implies l[a + k] == "handle"@[k] by {
        assert(t.subrange(0, 10)[k] == t[k]);
        assert(t[k] == l[a + k]);
    }
    assert(l.subrange(a, a + 6) =~= "handle"@);
    assert(crate::text::occurs_at(l, "handle"@, a));
    assert(l[b - 1] == ';') by {
        assert(t[t.len() - 1] == ';');
    }
    assert(a + 6 <= b - 1 < l.len());
}

/// Inserting a kept element behind every other kept element appends it to the
/// filtered sequence.
proof fn lemma_filter_insert_after_all<A>(s: Seq<A>, i: int, x: A, pred: spec_fn(A) -> bool)
    requires
        0 <= i <= s.len(),
        pred(x),
        forall|k: int| i <= k < s.len() ==> !pred(#[trigger] s[k]),
    ensures
        s.insert(i, x).filter(pred) == s.filter(pred).push(x),
{
    let a = s.subrange(0, i);
    let b = s.subrange(i, s.len() as int);
    Seq::filter_distributes_over_add(a.push(x), b, pred);
    lemma_filter_push(a, x, pred);
    lemma_filter_none(b, pred);
    Seq::filter_distributes_over_add(a, b, pred);
    assert(a + b =~= s);
    assert(a.filter(pred).push(x) + b.filter(pred) =~= (a.filter(pred) + b.filter(pred)).push(x));
}

/// Inserting a kept element anywhere into lines with no kept element appends
/// it to the (empty) filtered sequence.
proof fn lemma_filter_insert_into_none<A>(s: Seq<A>, i: int, x: A, pred: spec_fn(A) -> bool)
    requires
        0 <= i <= s.len(),
        pred(x),
        s.filter(pred) == Seq::<A>::empty(),
    ensures
        s.insert(i, x).filter(pred) == s.filter(pred).push(x),
{
    assert forall|k: int| 0 <= k < s.len() implies !pred(#[trigger] s[k]) by {
        if pred(s[k]) {
            Seq::lemma_filter_contains(s, pred, k);
        }
    }
    lemma_filter_insert_after_all(s, i, x, pred);
}

/// Law (one step, order): inserting a module appends its declaration
/// statement after all existing declaration statements and its registration
/// statement after all existing registration statements — for the first
/// registration ever, because there is nothing before it.
pub proof fn lemma_insert_module_stmt_order(
    lines: Seq<Seq<char>>,
    snake: Seq<char>,
    pascal: Seq<char>,
    is_tool: bool,
    is_first: bool,
)
    requires
        is_first ==> reg_count(lines) == 0,
    ensures
        decl_stmts(spec_insert_module(lines, snake, pascal, is_tool, is_first)) == decl_stmts(
            lines,
        ).push(spec_decl_line(snake)),
        reg_stmts(spec_insert_module(lines, snake, pascal, is_tool, is_first)) == reg_stmts(
            lines,
        ).push(spec_reg_line(snake, pascal, is_tool)),
{
    let d = spec_decl_line(snake);
    let r = spec_reg_line(snake, pascal, is_tool);
    lemma_decl_line_stmt(snake);
    lemma_reg_line_stmt(snake, pascal, is_tool);
    let p1: int = spec_insert_pos(lines, "mod"@, ';', false);
    lemma_insert_pos_bounds(lines, "mod"@, ';', false);
    lemma_last_match_up_to(lines, "mod"@, ';', lines.len() as int);
    let l1 = lines.insert(p1, d);
    // no declaration statement lies at or after the declaration insertion
    // point, since every declaration statement matches the pattern
    assert forall|k: int| p1 <= k < lines.len() implies !decl_stmt_pred()(#[trigger] lines[k]) by {
        if is_decl_stmt(lines[k]) {
            lemma_decl_stmt_matches_pattern(lines[k]);
        }
    }
    lemma_filter_insert_after_all(lines, p1, d, decl_stmt_pred());
    lemma_filter_insert_len(lines, p1, d, reg_stmt_pred());
    lemma_filter_insert_dropped(lines, p1, d, reg_stmt_pred());
    lines.insert_ensures(p1, d);

    let p2: int = if is_first {
        spec_insert_pos(l1, "init"@, '{', true)
    } else {
        spec_insert_pos(l1, "handle"@, ';', false)
    };
    lemma_insert_pos_bounds(l1, "init"@, '{', true);
    lemma_insert_pos_bounds(l1, "handle"@, ';', false);
    lemma_filter_insert_dropped(l1, p2, r, decl_stmt_pred());
    if is_first {
        assert(l1.filter(reg_stmt_pred()) =~= Seq::<Seq<char>>::empty()) by {
            Seq::lemma_filter_len(lines, reg_stmt_pred());
        }
        lemma_filter_insert_into_none(l1, p2, r, reg_stmt_pred());
    } else {
        lemma_last_match_up_to(l1, "handle"@, ';', l1.len() as int);
        assert forall|k: int| p2 <= k < l1.len() implies !reg_stmt_pred()(#[trigger] l1[k]) by {
            if is_reg_stmt(l1[k]) {
                lemma_reg_stmt_matches_pattern(l1[k]);
            }
        }
        lemma_filter_insert_after_all(l1, p2, r, reg_stmt_pred());
    }
}

/// The declaration lines of a run of modules, in creation order.
pub open spec fn decl_lines_of(names: Seq<(Seq<char>, Seq<char>)>) -> Seq<Seq<char>> {
    names.map_values(|p: (Seq<char>, Seq<char>)| spec_decl_line(p.0))
}

/// The registration lines of a run of modules, in creation order.
pub open spec fn reg_lines_of(names: Seq<(Seq<char>, Seq<char>)>, is_tool: bool) -> Seq<
    Seq<char>,
> {
    names.map_values(|p: (Seq<char>, Seq<char>)| spec_reg_line(p.0, p.1, is_tool))
}

/// Inserting a run of modules appends their declaration and registration
/// statements in creation order.
pub proof fn lemma_insert_all_stmt_order(
    lines: Seq<Seq<char>>,
    names: Seq<(Seq<char>, Seq<char>)>,
    is_tool: bool,
    created_before: nat,
)
    requires
        created_before == 0 ==> reg_count(lines) == 0,
    ensures
        decl_stmts(spec_insert_all(lines, names, is_tool, created_before)) == decl_stmts(lines)
            + decl_lines_of(names),
        reg_stmts(spec_insert_all(lines, names, is_tool, created_before)) == reg_stmts(lines)
            + reg_lines_of(names, is_tool),
    decreases names.len(),
{
    if names.len() == 0 {
        assert(decl_stmts(lines) + decl_lines_of(names) =~= decl_stmts(lines));
        assert(reg_stmts(lines) + reg_lines_of(names, is_tool) =~= reg_stmts(lines));
    } else {
        let one = spec_insert_module(lines, names[0].0, names[0].1, is_tool, created_before == 0);
        lemma_insert_module_stmt_order(lines, names[0].0, names[0].1, is_tool, created_before
            == 0);
        lemma_insert_all_stmt_order(one, names.drop_first(), is_tool, created_before + 1);
        assert(decl_stmts(lines).push(spec_decl_line(names[0].0)) + decl_lines_of(
            names.drop_first(),
        ) =~~= decl_stmts(lines) + decl_lines_of(names));
        assert(reg_stmts(lines).push(spec_reg_line(names[0].0, names[0].1, is_tool))
            + reg_lines_of(names.drop_first(), is_tool) =~~= reg_stmts(lines) + reg_lines_of(
            names,
            is_tool,
        ));
    }
}

/// Law: after creating a run of modules in a fresh entry-point source, the
/// declaration statements are exactly the modules' declaration lines in
/// creation order, and the registration statements are exactly their
/// registration lines in creation order.
pub proof fn lemma_module_creation_order(names: Seq<(Seq<char>, Seq<char>)>, is_tool: bool)
    ensures
        decl_stmts(spec_insert_all(spec_lines(spec_initial_lib_file()), names, is_tool, 0))
            == decl_lines_of(names),
        reg_stmts(spec_insert_all(spec_lines(spec_initial_lib_file()), names, is_tool, 0))
            == reg_lines_of(names, is_tool),
{
    lemma_initial_lib_file_shape();
    let base = spec_lines(spec_initial_lib_file());
    assert(decl_stmts(base) =~= Seq::<Seq<char>>::empty()) by {
        Seq::lemma_filter_len(base, decl_stmt_pred());
    }
    assert(reg_stmts(base) =~= Seq::<Seq<char>>::empty()) by {
        Seq::lemma_filter_len(base, reg_stmt_pred());
    }
    lemma_insert_all_stmt_order(base, names, is_tool, 0);
    assert(decl_stmts(base) + decl_lines_of(names) =~~= decl_lines_of(names));
    assert(reg_stmts(base) + reg_lines_of(names, is_tool) =~~= reg_lines_of(names, is_tool));
}

/// A run of module creations over the text itself, as the executable editor
/// performs it: each step splits the current source, inserts the module's
/// two lines and joins again — step after step the exact contract of
/// [`add_module_to_lib`].
pub open spec fn spec_add_all_text(
    text: Seq<char>,
    names: Seq<(Seq<char>, Seq<char>)>,
    is_tool: bool,
    created_before: nat,
) -> Seq<char>
    decreases names.len(),
{
    if names.len() == 0 {
        text
    } else {
        spec_add_all_text(
            spec_unlines(
                spec_insert_module(spec_lines(text), names[0].0, names[0].1, is_tool,
                    created_before == 0),
            ),
            names.drop_first(),
            is_tool,
            created_before + 1,
        )
    }
}

/// The text-level chain of creations equals the line-level chain: joining
/// and re-splitting between steps loses nothing, since no line ever holds a
/// newline.
pub proof fn lemma_text_chain_equals_line_chain(
    text: Seq<char>,
    names: Seq<(Seq<char>, Seq<char>)>,
    is_tool: bool,
    created_before: nat,
)
    requires
        forall|n: int, k: int|
            0 <= n < names.len() && 0 <= k < names[n].0.len() ==> names[n].0[k] != '\n',
        forall|n: int, k: int|
            0 <= n < names.len() && 0 <= k < names[n].1.len() ==> names[n].1[k] != '\n',
    ensures
        spec_lines(spec_add_all_text(text, names, is_tool, created_before)) == spec_insert_all(
            spec_lines(text),
            names,
            is_tool,
            created_before,
        ),
    decreases names.len(),
{
    if names.len() > 0 {
        let lines = spec_lines(text);
        let inserted = spec_insert_module(lines, names[0].0, names[0].1, is_tool, created_before
            == 0);
        crate::text::lemma_lines_no_newline_inside(text);
        lemma_insert_module_lines_clean(lines, names[0].0, names[0].1, is_tool, created_before
            == 0);
        crate::text::lemma_lines_of_unlines(inserted);
        assert forall|n: int, k: int|
            0 <= n < names.drop_first().len() && 0 <= k < names.drop_first()[n].0.len()
                implies names.drop_first()[n].0[k] != '\n' by {
            assert(names.drop_first()[n] == names[n + 1]);
        }
        assert forall|n: int, k: int|
            0 <= n < names.drop_first().len() && 0 <= k < names.drop_first()[n].1.len()
                implies names.drop_first()[n].1[k] != '\n' by {
            assert(names.drop_first()[n] == names[n + 1]);
        }
        lemma_text_chain_equals_line_chain(
            spec_unlines(inserted),
            names.drop_first(),
            is_tool,
            created_before + 1,
        );
    }
}

/// Law, over the executable chain itself: creating a run of modules in the
/// fresh entry-point source — each step splitting the previous step's output
/// text — leaves a source whose declaration statements are exactly the
/// modules' declaration lines in creation order, and likewise for
/// registration statements; in particular, exactly one of each per module.
/// The case-converted name forms are assumed free of newlines, which the
/// case conversion guarantees for any name a command line can carry.
pub proof fn lemma_module_creation_text_chain(names: Seq<(Seq<char>, Seq<char>)>, is_tool: bool)
    requires
        forall|n: int, k: int|
            0 <= n < names.len() && 0 <= k < names[n].0.len() ==> names[n].0[k] != '\n',
        forall|n: int, k: int|
            0 <= n < names.len() && 0 <= k < names[n].1.len() ==> names[n].1[k] != '\n',
    ensures
        decl_stmts(spec_lines(spec_add_all_text(spec_initial_lib_file(), names, is_tool, 0)))
            == decl_lines_of(names),
        reg_stmts(spec_lines(spec_add_all_text(spec_initial_lib_file(), names, is_tool, 0)))
            == reg_lines_of(names, is_tool),
        decl_count(spec_lines(spec_add_all_text(spec_initial_lib_file(), names, is_tool, 0)))
            == names.len(),
        reg_count(spec_lines(spec_add_all_text(spec_initial_lib_file(), names, is_tool, 0)))
            == names.len(),
{
    lemma_text_chain_equals_line_chain(spec_initial_lib_file(), names, is_tool, 0);
    lemma_module_creation_order(names, is_tool);
    lemma_module_creation_counts(names, is_tool);
}

/// Filtering keeps the absence of newlines in every line.
proof fn lemma_filter_no_newline(s: Seq<Seq<char>>, pred: spec_fn(Seq<char>) -> bool)
    requires
        forall|i: int, k: int| 0 <= i < s.len() && 0 <= k < s[i].len() ==> s[i][k] != '\n',
    ensures
        forall|i: int, k: int|
            0 <= i < s.filter(pred).len() && 0 <= k < s.filter(pred)[i].len() ==> s.filter(
                pred,
            )[i][k] != '\n',
    decreases s.len(),
{
    reveal(Seq::filter);
    if s.len() > 0 {
        assert(forall|i: int, k: int|
            0 <= i < s.drop_last().len() && 0 <= k < s.drop_last()[i].len() ==> s.drop_last(
            )[i][k] != '\n');
        lemma_filter_no_newline(s.drop_last(), pred);
        let f = s.drop_last().filter(pred);
        if pred(s.last()) {
            assert(forall|i: int, k: int|
                0 <= i < f.push(s.last()).len() && 0 <= k < f.push(s.last())[i].len() ==> f.push(
                    s.last(),
                )[i][k] != '\n');
        }
    }
}

} // verus!
