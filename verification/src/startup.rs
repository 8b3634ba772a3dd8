//! The REAPER `__startup.lua` hook block and how it is merged into a file.

use vstd::prelude::*;
use crate::text::{
    chars_of, contains_from, contains_seq, find_chars_from, first_index, first_index_from,
    is_first_occurrence, is_first_occurrence_from, lemma_first_exists, lemma_first_from_exists,
    lemma_first_from_unique, lemma_first_index_unique, lemma_occurs_in_left, lemma_occurs_in_right,
    occurs_at,
};

verus! {

/// First line of the block this library owns inside `__startup.lua`.
pub open spec fn start_marker() -> Seq<char> {
    "-- reaper-mcp:start"@
}

/// Last line of the block this library owns inside `__startup.lua`.
pub open spec fn end_marker() -> Seq<char> {
    "-- reaper-mcp:end"@
}

/// The block without its final newline: start marker, the two hook lines,
/// end marker.
pub open spec fn block_body() -> Seq<char> {
    "-- reaper-mcp:start\npcall(dofile, reaper.GetResourcePath() .. \"/Scripts/reaper_bridge.lua\")\npcall(reaper.Main_openProject, reaper.GetResourcePath() .. \"/reaper-mcp-default.RPP\")\n-- reaper-mcp:end"@
}

/// The full block as appended to a file: the body and a final newline.
pub open spec fn startup_block_text() -> Seq<char> {
    block_body().push('\n')
}

proof fn lemma_markers_shape()
    ensures
        start_marker().len() == 19,
        end_marker().len() == 17,
        forall|i: int| 0 <= i < 19 ==> #[trigger] start_marker()[i] != '\n',
        forall|i: int| 0 <= i < 19 ==> #[trigger] start_marker()[i] != 'd',
        forall|i: int| 0 <= i < 17 ==> #[trigger] end_marker()[i] != '\n',
        start_marker()[14] != end_marker()[14],
        end_marker()[13] == ':',
        end_marker()[16] == 'd',
        forall|k: int|
            0 < k < 19 ==> #[trigger] start_marker().subrange(k, 19) != start_marker().subrange(
                0,
                19 - k,
            ),
{
    reveal_strlit("-- reaper-mcp:start");
    reveal_strlit("-- reaper-mcp:end");
    assert forall|k: int| 0 < k < 19 implies #[trigger] start_marker().subrange(k, 19)
        != start_marker().subrange(0, 19 - k) by {
        if k == 3 {
            assert(start_marker().subrange(k, 19)[0] != start_marker().subrange(0, 19 - k)[0]);
        } else {
            assert(start_marker().subrange(k, 19)[18 - k] != start_marker().subrange(0, 19 - k)[18
                - k]);
        }
    }
}

proof fn lemma_block_shape()
    ensures
        block_body().len() == 195,
        block_body().subrange(0, 19) == start_marker(),
        block_body().subrange(178, 195) == end_marker(),
        forall|i: int| 0 <= i < 195 && #[trigger] block_body()[i] == ':' ==> i == 13 || i == 191,
{
    reveal_strlit("-- reaper-mcp:start");
    reveal_strlit("-- reaper-mcp:end");
    reveal_strlit("-- reaper-mcp:start\npcall(dofile, reaper.GetResourcePath() .. \"/Scripts/reaper_bridge.lua\")\npcall(reaper.Main_openProject, reaper.GetResourcePath() .. \"/reaper-mcp-default.RPP\")\n-- reaper-mcp:end");
    assert(block_body().subrange(0, 19) =~= start_marker());
    assert(block_body().subrange(178, 195) =~= end_marker());
}

/// `x` holds a start marker with an end marker beginning after the first
/// start marker: the merge then replaces the span between them.
pub open spec fn block_replaceable(x: Seq<char>) -> bool {
    &&& contains_seq(x, start_marker())
    &&& contains_from(x, end_marker(), first_index(x, start_marker()) + 19)
}

/// Where the replaced span begins: the first start marker.
pub open spec fn block_start(x: Seq<char>) -> int {
    first_index(x, start_marker())
}

/// Where the end marker of the replaced span begins: the first end marker
/// after the first start marker.
pub open spec fn block_end(x: Seq<char>) -> int {
    first_index_from(x, end_marker(), block_start(x) + 19)
}

/// What merging the hook block into a `__startup.lua` holding `x` yields:
/// the span from the first start marker through the first end marker after
/// it is replaced by the block, or, when there is no such span, the block
/// is appended on a line of its own. Everything outside the span stays.
pub open spec fn merged_startup(x: Seq<char>) -> Seq<char> {
    if block_replaceable(x) {
        x.subrange(0, block_start(x)) + block_body() + x.subrange(block_end(x) + 17, x.len() as int)
    } else if x.len() == 0 || x.last() == '\n' {
        x + startup_block_text()
    } else {
        x.push('\n') + startup_block_text()
    }
}

/// The block body as a string slice.
fn block_body_str() -> (res: &'static str)
    ensures
        res@ == block_body(),
{
    proof {
        reveal_strlit("-- reaper-mcp:start\npcall(dofile, reaper.GetResourcePath() .. \"/Scripts/reaper_bridge.lua\")\npcall(reaper.Main_openProject, reaper.GetResourcePath() .. \"/reaper-mcp-default.RPP\")\n-- reaper-mcp:end");
    }
    "-- reaper-mcp:start\npcall(dofile, reaper.GetResourcePath() .. \"/Scripts/reaper_bridge.lua\")\npcall(reaper.Main_openProject, reaper.GetResourcePath() .. \"/reaper-mcp-default.RPP\")\n-- reaper-mcp:end"
}

/// The marker-delimited block that wires the bridge script and the default
/// project into REAPER's `__startup.lua`.
pub fn startup_block() -> (res: String)
    ensures
        res@ == startup_block_text(),
{
    let mut res = String::from_str(block_body_str());
    res.append("\n");
    proof {
        reveal_strlit("\n");
        assert(res@ =~= startup_block_text());
    }
    res
}

/// Inserts or replaces the hook block in the existing `__startup.lua`
/// content, leaving everything outside the replaced span untouched.
pub fn merge_startup_content(existing: &str) -> (res: String)
    ensures
        res@ == merged_startup(existing@),
{
    let block = startup_block();
    let chars = chars_of(existing);
    let start_lit = "-- reaper-mcp:start";
    let end_lit = "-- reaper-mcp:end";
    let start = chars_of(start_lit);
    let end = chars_of(end_lit);
    proof {
        reveal_strlit("-- reaper-mcp:start");
        reveal_strlit("-- reaper-mcp:end");
        assert(start@ =~= start_marker());
        assert(end@ =~= end_marker());
    }
    let n = chars.len();
    match find_chars_from(&chars, &start, 0) {
        Some(s) => {
            proof {
                assert(is_first_occurrence(existing@, start_marker(), s as int));
                lemma_first_index_unique(existing@, start_marker(), s as int);
            }
            match find_chars_from(&chars, &end, s + 19) {
                Some(e) => {
                    proof {
                        lemma_first_from_unique(existing@, end_marker(), s + 19, e as int);
                    }
                    let body = block_body_str();
                    let mut res = String::from_str(existing.substring_char(0, s));
                    res.append(body);
                    res.append(existing.substring_char(e + 17, n));
                    return res;
                },
                None => {
                    assert(!block_replaceable(existing@));
                },
            }
        },
        None => {
            assert forall|j: int| !occurs_at(existing@, start_marker(), j) by {
                if occurs_at(existing@, start_marker(), j) {
                    assert(0 <= j);
                }
            }
            assert(!block_replaceable(existing@));
        },
    }
    if n == 0 || chars[n - 1] == '\n' {
        let mut res = String::from_str(existing);
        res.append(block.as_str());
        res
    } else {
        let mut res = String::from_str(existing);
        res.append("\n");
        proof {
            reveal_strlit("\n");
        }
        res.append(block.as_str());
        res
    }
}

/// With `p` free of start markers, the first start marker of
/// `p + block_body() + q` is the block's own.
proof fn lemma_block_start_first(p: Seq<char>, q: Seq<char>)
    requires
        !contains_seq(p, start_marker()),
    ensures
        is_first_occurrence(p + block_body() + q, start_marker(), p.len() as int),
{
    lemma_markers_shape();
    lemma_block_shape();
    let r = p + block_body() + q;
    let l = p.len() as int;
    assert(r.subrange(l, l + 19) =~= block_body().subrange(0, 19));
    assert forall|j: int| 0 <= j < l implies !occurs_at(r, start_marker(), j) by {
        if j + 19 <= l {
            lemma_occurs_in_left(p, block_body() + q, start_marker(), j);
            assert(r == p + (block_body() + q));
            assert(!occurs_at(p, start_marker(), j));
        } else if occurs_at(r, start_marker(), j) {
            let k = l - j;
            assert(start_marker().subrange(k, 19) =~= r.subrange(l, j + 19));
            assert(r.subrange(l, j + 19) =~= block_body().subrange(0, 19 - k));
            assert(block_body().subrange(0, 19 - k) =~= start_marker().subrange(0, 19 - k));
            assert(start_marker().subrange(k, 19) == start_marker().subrange(0, 19 - k));
        }
    }
}

/// With `p` free of both markers, the first start marker of
/// `p + block_body() + q` is the block's own, and so is the first end marker.
proof fn lemma_block_markers_first(p: Seq<char>, q: Seq<char>)
    requires
        !contains_seq(p, start_marker()),
        !contains_seq(p, end_marker()),
    ensures
        is_first_occurrence(p + block_body() + q, start_marker(), p.len() as int),
        is_first_occurrence(p + block_body() + q, end_marker(), p.len() + 178int),
{
    lemma_markers_shape();
    lemma_block_shape();
    lemma_block_start_first(p, q);
    let r = p + block_body() + q;
    let l = p.len() as int;
    assert(r.subrange(l + 178, l + 195) =~= block_body().subrange(178, 195));
    assert forall|j: int| 0 <= j < l + 178 implies !occurs_at(r, end_marker(), j) by {
        if j + 17 <= l {
            lemma_occurs_in_left(p, block_body() + q, end_marker(), j);
            assert(r == p + (block_body() + q));
            assert(!occurs_at(p, end_marker(), j));
        } else if j < l {
            if occurs_at(r, end_marker(), j) {
                let k = l - j;
                assert(end_marker()[16] == r[j + 16]);
                assert(r[j + 16] == block_body()[16 - k]);
                assert(block_body()[16 - k] == start_marker()[16 - k]);
            }
        } else if occurs_at(r, end_marker(), j) {
            let t = j - l;
            assert(end_marker()[13] == r[j + 13]);
            assert(r[j + 13] == block_body()[t + 13]);
            assert(end_marker()[14] == r[j + 14]);
            assert(r[j + 14] == block_body()[t + 14]);
            assert(block_body()[14] == start_marker()[14]);
        }
    }
}

/// The start marker occurs in the block only at its beginning, the end
/// marker only at its end, and no marker can begin inside the block and
/// run past its end.
proof fn lemma_block_marker_positions()
    ensures
        forall|t: int| #[trigger] occurs_at(block_body(), start_marker(), t) ==> t == 0,
        forall|t: int| #[trigger] occurs_at(block_body(), end_marker(), t) ==> t == 178,
{
    lemma_markers_shape();
    lemma_block_shape();
    reveal_strlit("-- reaper-mcp:start");
    assert(start_marker()[13] == ':');
    assert forall|t: int| #[trigger] occurs_at(block_body(), start_marker(), t) implies t == 0 by {
        assert(block_body()[t + 13] == start_marker()[13]);
        assert(block_body()[t + 14] == start_marker()[14]);
    }
    assert forall|t: int| #[trigger] occurs_at(block_body(), end_marker(), t) implies t == 178 by {
        assert(block_body()[t + 13] == end_marker()[13]);
        assert(block_body()[t + 14] == end_marker()[14]);
    }
}

/// With `p` and `q` free of both markers, the only markers of
/// `p + block_body() + q` are the block's own.
proof fn lemma_only_block_markers(p: Seq<char>, q: Seq<char>)
    requires
        !contains_seq(p, start_marker()),
        !contains_seq(p, end_marker()),
        !contains_seq(q, start_marker()),
        !contains_seq(q, end_marker()),
    ensures
        forall|j: int| #[trigger] occurs_at(p + block_body() + q, start_marker(), j) ==> j
            == p.len(),
        forall|j: int| #[trigger] occurs_at(p + block_body() + q, end_marker(), j) ==> j
            == p.len() + 178,
        is_first_occurrence(p + block_body() + q, start_marker(), p.len() as int),
        is_first_occurrence(p + block_body() + q, end_marker(), p.len() + 178int),
{
    lemma_markers_shape();
    lemma_block_shape();
    lemma_block_marker_positions();
    lemma_block_markers_first(p, q);
    let r = p + block_body() + q;
    let l = p.len() as int;
    let pb = p + block_body();
    assert(r == pb + q);
    assert forall|j: int| #[trigger] occurs_at(r, start_marker(), j) implies j == l by {
        if j > l {
            if j + 19 <= l + 195 {
                assert(r.subrange(j, j + 19) =~= block_body().subrange(j - l, j - l + 19));
                assert(occurs_at(block_body(), start_marker(), j - l));
            } else if j < l + 195 {
                assert(r[l + 194] == block_body()[194]);
                assert(block_body()[194] == end_marker()[16]);
                assert(r[l + 194] == start_marker()[l + 194 - j]);
            } else {
                lemma_occurs_in_right(pb, q, start_marker(), j);
            }
        }
    }
    assert forall|j: int| #[trigger] occurs_at(r, end_marker(), j) implies j == l + 178 by {
        if j > l + 178 {
            if j < l + 195 {
                assert(r[l + 194] == block_body()[194]);
                assert(block_body()[194] == end_marker()[16]);
                assert(r[l + 194] == end_marker()[l + 194 - j]);
                reveal_strlit("-- reaper-mcp:end");
            } else {
                lemma_occurs_in_right(pb, q, end_marker(), j);
            }
        }
    }
}


/// With `p` free of start markers, the span the merge replaces in
/// `p + block_body() + q` is the block itself, so merging leaves it as it is.
proof fn lemma_block_is_own_span(p: Seq<char>, q: Seq<char>)
    requires
        !contains_seq(p, start_marker()),
    ensures
        block_replaceable(p + block_body() + q),
        block_start(p + block_body() + q) == p.len(),
        block_end(p + block_body() + q) == p.len() + 178,
        merged_startup(p + block_body() + q) == p + block_body() + q,
{
    lemma_markers_shape();
    lemma_block_shape();
    lemma_block_marker_positions();
    lemma_block_start_first(p, q);
    let r = p + block_body() + q;
    let l = p.len() as int;
    lemma_first_index_unique(r, start_marker(), l);
    assert(r.subrange(l + 178, l + 195) =~= block_body().subrange(178, 195));
    assert forall|j: int| l + 19 <= j < l + 178 implies !occurs_at(r, end_marker(), j) by {
        if occurs_at(r, end_marker(), j) {
            assert(r.subrange(j, j + 17) =~= block_body().subrange(j - l, j - l + 17));
            assert(occurs_at(block_body(), end_marker(), j - l));
        }
    }
    assert(is_first_occurrence_from(r, end_marker(), l + 19, l + 178));
    lemma_first_from_unique(r, end_marker(), l + 19, l + 178);
    assert(occurs_at(r, start_marker(), l));
    assert(occurs_at(r, end_marker(), l + 178));
    assert(r.subrange(0, l) =~= p);
    assert(r.subrange(l + 195, r.len() as int) =~= q);
}

/// In a replaceable file, the first start marker and the first end marker
/// after it are where `block_start` and `block_end` say, and what comes
/// before the start marker holds no start marker.
proof fn lemma_span_shape(x: Seq<char>)
    requires
        block_replaceable(x),
    ensures
        is_first_occurrence(x, start_marker(), block_start(x)),
        is_first_occurrence_from(x, end_marker(), block_start(x) + 19, block_end(x)),
        !contains_seq(x.subrange(0, block_start(x)), start_marker()),
{
    lemma_markers_shape();
    lemma_first_exists(x, start_marker(), choose|i: int| occurs_at(x, start_marker(), i));
    let s = block_start(x);
    let w = choose|j: int| s + 19 <= j && #[trigger] occurs_at(x, end_marker(), j);
    lemma_first_from_exists(x, end_marker(), s + 19, w);
    let p = x.subrange(0, s);
    let rest = x.subrange(s, x.len() as int);
    assert(p + rest =~= x);
    assert forall|i: int| !occurs_at(p, start_marker(), i) by {
        if occurs_at(p, start_marker(), i) {
            lemma_occurs_in_left(p, rest, start_marker(), i);
        }
    }
}

/// A file holding no start marker gains the block at its end, after a
/// newline when it lacks one; the part before the block holds no start
/// marker.
proof fn lemma_append_shape(x: Seq<char>)
    requires
        !contains_seq(x, start_marker()),
    ensures
        !block_replaceable(x),
        ({
            let p = if x.len() == 0 || x.last() == '\n' {
                x
            } else {
                x.push('\n')
            };
            &&& merged_startup(x) == p + block_body() + seq!['\n']
            &&& !contains_seq(p, start_marker())
        }),
{
    lemma_markers_shape();
    lemma_block_shape();
    let p = if x.len() == 0 || x.last() == '\n' {
        x
    } else {
        x.push('\n')
    };
    assert(merged_startup(x) =~= p + block_body() + seq!['\n']);
    assert forall|j: int| !occurs_at(p, start_marker(), j) by {
        if occurs_at(p, start_marker(), j) {
            if j + 19 <= x.len() {
                lemma_occurs_in_left(x, p.subrange(x.len() as int, p.len() as int), start_marker(), j);
                assert(x + p.subrange(x.len() as int, p.len() as int) =~= p);
            } else {
                assert(p[p.len() - 1] == '\n');
                assert(p[p.len() - 1] == start_marker()[p.len() - 1 - j]);
            }
        }
    }
}

/// Merging is idempotent on every file that holds no start marker or a
/// replaceable span: installing the hook a second time leaves
/// `__startup.lua` as the first install left it, and the merged file
/// always holds a replaceable block.
pub proof fn lemma_merge_idempotent(x: Seq<char>)
    requires
        !contains_seq(x, start_marker()) || block_replaceable(x),
    ensures
        merged_startup(merged_startup(x)) == merged_startup(x),
        block_replaceable(merged_startup(x)),
{
    lemma_block_shape();
    let r = merged_startup(x);
    if block_replaceable(x) {
        lemma_span_shape(x);
        let p = x.subrange(0, block_start(x));
        let q = x.subrange(block_end(x) + 17, x.len() as int);
        assert(r == p + block_body() + q);
        lemma_block_is_own_span(p, q);
    } else {
        lemma_append_shape(x);
        let p = if x.len() == 0 || x.last() == '\n' {
            x
        } else {
            x.push('\n')
        };
        lemma_block_is_own_span(p, seq!['\n']);
    }
}

/// Merging keeps the user's own content. With a replaceable span, it
/// begins at the first start marker and ends with the first end marker
/// after it, everything before and after it stays as it was, and the block
/// takes its place; without one, the old content is a prefix of the new
/// one. The block is in the result either way.
pub proof fn lemma_merge_preserves_foreign_content(x: Seq<char>)
    ensures
        block_replaceable(x) ==> {
            let s = block_start(x);
            let e = block_end(x);
            let r = merged_startup(x);
            &&& occurs_at(x, start_marker(), s)
            &&& occurs_at(x, end_marker(), e)
            &&& s + 19 <= e
            &&& r.subrange(0, s) == x.subrange(0, s)
            &&& r.subrange(s, s + 195) == block_body()
            &&& r.subrange(s + 195, r.len() as int) == x.subrange(e + 17, x.len() as int)
        },
        !block_replaceable(x) ==> merged_startup(x).subrange(0, x.len() as int) == x,
        contains_seq(merged_startup(x), block_body()),
{
    lemma_block_shape();
    let r = merged_startup(x);
    if block_replaceable(x) {
        lemma_span_shape(x);
        let s = block_start(x);
        let e = block_end(x);
        assert(r.subrange(0, s) =~= x.subrange(0, s));
        assert(r.subrange(s, s + 195) =~= block_body());
        assert(r.subrange(s + 195, r.len() as int) =~= x.subrange(e + 17, x.len() as int));
        assert(occurs_at(r, block_body(), s));
    } else {
        let p = if x.len() == 0 || x.last() == '\n' {
            x
        } else {
            x.push('\n')
        };
        assert(r =~= p + block_body() + seq!['\n']);
        assert(r.subrange(0, x.len() as int) =~= x);
        assert(r.subrange(p.len() as int, p.len() + 195int) =~= block_body());
        assert(occurs_at(r, block_body(), p.len() as int));
    }
}

/// Installing never duplicates the block: when a file holds no marker, or
/// exactly one start marker and exactly one end marker after it, the merged
/// file holds exactly one of each, the block's own, the end marker after
/// the start marker.
pub proof fn lemma_merge_keeps_single_block(x: Seq<char>)
    requires
        (!contains_seq(x, start_marker()) && !contains_seq(x, end_marker())) || exists|s: int, e: int|
            #![trigger occurs_at(x, start_marker(), s), occurs_at(x, end_marker(), e)]
            s + 19 <= e && occurs_at(x, start_marker(), s) && occurs_at(x, end_marker(), e) && (
            forall|j: int| #[trigger] occurs_at(x, start_marker(), j) ==> j == s) && (forall|j: int|
            #[trigger] occurs_at(x, end_marker(), j) ==> j == e),
    ensures
        ({
            let r = merged_startup(x);
            &&& contains_seq(r, start_marker())
            &&& contains_seq(r, end_marker())
            &&& forall|j: int| #[trigger] occurs_at(r, start_marker(), j) ==> j == first_index(
                r,
                start_marker(),
            )
            &&& forall|j: int| #[trigger] occurs_at(r, end_marker(), j) ==> j == first_index(
                r,
                end_marker(),
            )
            &&& first_index(r, end_marker()) == first_index(r, start_marker()) + 178
        }),
{
    lemma_markers_shape();
    lemma_block_shape();
    let r = merged_startup(x);
    if !contains_seq(x, start_marker()) && !contains_seq(x, end_marker()) {
        assert(!block_replaceable(x));
        let p = if x.len() == 0 || x.last() == '\n' {
            x
        } else {
            x.push('\n')
        };
        let q = seq!['\n'];
        assert(r =~= p + block_body() + q);
        assert forall|j: int| !occurs_at(p, start_marker(), j) by {
            if occurs_at(p, start_marker(), j) {
                if j + 19 <= x.len() {
                    lemma_occurs_in_left(x, p.subrange(x.len() as int, p.len() as int), start_marker(), j);
                    assert(x + p.subrange(x.len() as int, p.len() as int) =~= p);
                } else {
                    assert(p[p.len() - 1] == '\n');
                    assert(p[p.len() - 1] == start_marker()[p.len() - 1 - j]);
                }
            }
        }
        assert forall|j: int| !occurs_at(p, end_marker(), j) by {
            if occurs_at(p, end_marker(), j) {
                if j + 17 <= x.len() {
                    lemma_occurs_in_left(x, p.subrange(x.len() as int, p.len() as int), end_marker(), j);
                    assert(x + p.subrange(x.len() as int, p.len() as int) =~= p);
                } else {
                    assert(p[p.len() - 1] == '\n');
                    assert(p[p.len() - 1] == end_marker()[p.len() - 1 - j]);
                }
            }
        }
        assert forall|j: int| !occurs_at(q, start_marker(), j) && !occurs_at(q, end_marker(), j) by {}
        lemma_only_block_markers(p, q);
        lemma_first_index_unique(r, start_marker(), p.len() as int);
        lemma_first_index_unique(r, end_marker(), p.len() + 178int);
    } else {
        let (s, e) = choose|s: int, e: int|
            #![trigger occurs_at(x, start_marker(), s), occurs_at(x, end_marker(), e)]
            s + 19 <= e && occurs_at(x, start_marker(), s) && occurs_at(x, end_marker(), e) && (
            forall|j: int| #[trigger] occurs_at(x, start_marker(), j) ==> j == s) && (forall|j: int|
            #[trigger] occurs_at(x, end_marker(), j) ==> j == e);
        assert(is_first_occurrence(x, start_marker(), s));
        lemma_first_index_unique(x, start_marker(), s);
        assert(is_first_occurrence_from(x, end_marker(), s + 19, e));
        lemma_first_from_unique(x, end_marker(), s + 19, e);
        assert(block_replaceable(x));
        let p = x.subrange(0, s);
        let q = x.subrange(e + 17, x.len() as int);
        let rest = x.subrange(s, x.len() as int);
        let head = x.subrange(0, e + 17);
        assert(p + rest =~= x);
        assert(head + q =~= x);
        assert(r == p + block_body() + q);
        assert forall|j: int| !occurs_at(p, start_marker(), j) && !occurs_at(p, end_marker(), j) by {
            if occurs_at(p, start_marker(), j) {
                lemma_occurs_in_left(p, rest, start_marker(), j);
            }
            if occurs_at(p, end_marker(), j) {
                lemma_occurs_in_left(p, rest, end_marker(), j);
            }
        }
        assert forall|i: int| !occurs_at(q, start_marker(), i) && !occurs_at(q, end_marker(), i) by {
            if occurs_at(q, start_marker(), i) {
                lemma_occurs_in_right(head, q, start_marker(), i + e + 17);
            }
            if occurs_at(q, end_marker(), i) {
                lemma_occurs_in_right(head, q, end_marker(), i + e + 17);
            }
        }
        lemma_only_block_markers(p, q);
        lemma_first_index_unique(r, start_marker(), p.len() as int);
        lemma_first_index_unique(r, end_marker(), p.len() + 178int);
    }
}

} // verus!
