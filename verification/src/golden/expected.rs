//! What a parser must read back out of a written golden case: the parts of
//! the oracle that are naming, referring and choosing rather than
//! coordinates.

use crate::chars::chars_of;
use crate::golden::spec::LayerSpec;
use crate::model::{
    EntityLinetype, HorizontalJustification, Ref, TextOverride, VerticalJustification,
};
use crate::tables::LayerRecord;
use vstd::prelude::*;

verus! {

broadcast use vstd::string::group_string_axioms;

/// A layer as the writer declares it: with the CONTINUOUS linetype, and
/// with the state the spec gives it -- off as a negative colour, the plot
/// flag (290) and the lineweight (370) only where the spec states them.
pub fn layer(l: &LayerSpec) -> (r: LayerRecord)
    requires
        l.state.off ==> l.color_index != i16::MIN,
    ensures
        r.name@ == l.name@,
        r.color_index == if l.state.off {
            -l.color_index
        } else {
            l.color_index as int
        },
        r.off == l.state.off,
        r.frozen == l.state.frozen,
        r.locked == l.state.locked,
        r.plot == l.state.plot,
        r.lineweight == l.state.lineweight,
        r.linetype matches Ref::Resolved(n) && n@ == "CONTINUOUS"@,
{
    LayerRecord {
        name: l.name.clone(),
        color_index: if l.state.off {
            -l.color_index
        } else {
            l.color_index
        },
        off: l.state.off,
        frozen: l.state.frozen,
        locked: l.state.locked,
        plot: l.state.plot,
        lineweight: l.state.lineweight,
        linetype: Ref::Resolved("CONTINUOUS".to_string()),
    }
}

/// The three ways a file spells "show the measurement": nothing, `<>`.
pub open spec fn spells_measured(s: Seq<char>) -> bool {
    s == Seq::<char>::empty() || s == seq!['<', '>']
}

/// A dimension's text (DXF 1), read the way the format reads it: an empty
/// string and `<>` both show the measurement, a single space shows nothing,
/// and anything else is shown instead, as written.
pub fn text_override(text: &str) -> (r: TextOverride)
    ensures
        spells_measured(text@) ==> r == TextOverride::Measured,
        text@ == seq![' '] ==> r == TextOverride::Suppressed,
        !spells_measured(text@) && text@ != seq![' '] ==> (r matches TextOverride::Literal(s)
            && s@ == text@),
{
    let cs = chars_of(text);
    if cs.len() == 0 {
        assert(text@ == Seq::<char>::empty());
        TextOverride::Measured
    } else if cs.len() == 2 && cs[0] == '<' && cs[1] == '>' {
        assert(text@ == seq!['<', '>']);
        TextOverride::Measured
    } else if cs.len() == 1 && cs[0] == ' ' {
        assert(text@ == seq![' ']);
        TextOverride::Suppressed
    } else {
        assert(!spells_measured(text@)) by {
            if text@ == seq!['<', '>'] {
                assert(cs@[0] == '<' && cs@[1] == '>');
            }
        }
        assert(text@ != seq![' ']) by {
            if text@ == seq![' '] {
                assert(cs@[0] == ' ');
            }
        }
        TextOverride::Literal(text.to_string())
    }
}

/// Whether `name` is one of `declared`, by its characters.
fn declares(declared: &[String], name: &String) -> (r: bool)
    ensures
        r == exists|i: int| 0 <= i < declared@.len() && declared@[i]@ == name@,
{
    let mut i: usize = 0;
    while i < declared.len()
        invariant
            i <= declared@.len(),
            forall|k: int| 0 <= k < i ==> declared@[k]@ != name@,
        decreases declared@.len() - i,
    {
        if declared[i] == *name {
            return true;
        }
        i += 1;
    }
    false
}

/// The reference a dimension's style name becomes, against the names of the
/// DIMSTYLE entries the file declares: resolved when the file declares that
/// style, unresolved -- carrying the name -- when it names one the file
/// never declares, absent when it names none at all.
pub fn style_ref(style: &Option<String>, declared: &[String]) -> (r: Ref<String>)
    ensures
        style is None ==> r == Ref::<String>::Absent,
        style matches Some(name) ==> {
            if exists|i: int| 0 <= i < declared@.len() && declared@[i]@ == name@ {
                r matches Ref::Resolved(n) && n@ == name@
            } else {
                r matches Ref::Unresolved(n) && n@ == name@
            }
        },
{
    match style {
        None => Ref::Absent,
        Some(name) => {
            if declares(declared, name) {
                Ref::Resolved(name.clone())
            } else {
                Ref::Unresolved(name.clone())
            }
        },
    }
}

/// `c` in upper case, when it is an ASCII letter.
pub open spec fn ascii_upper(c: char) -> char {
    if 0x61 <= c as u32 && c as u32 <= 0x7A {
        (c as u32 - 32) as char
    } else {
        c
    }
}

/// Whether `s` is the name `STANDARD`, ASCII letters compared without their
/// case (table names are not case-sensitive).
pub open spec fn is_standard(s: Seq<char>) -> bool {
    &&& s.len() == 8
    &&& forall|i: int|
        0 <= i < 8 ==> ascii_upper(#[trigger] s[i]) == seq!['S', 'T', 'A', 'N', 'D', 'A', 'R', 'D'][i]
}

/// Whether `s` is `STANDARD`, whatever the case of its letters.
fn names_standard(s: &String) -> (r: bool)
    ensures
        r == is_standard(s@),
{
    let cs = chars_of(s.as_str());
    if cs.len() != 8 {
        return false;
    }
    let expected = ['S', 'T', 'A', 'N', 'D', 'A', 'R', 'D'];
    assert(expected@ == seq!['S', 'T', 'A', 'N', 'D', 'A', 'R', 'D']);
    let mut i: usize = 0;
    while i < 8
        invariant
            i <= 8,
            cs@ == s@,
            cs@.len() == 8,
            expected@ == seq!['S', 'T', 'A', 'N', 'D', 'A', 'R', 'D'],
            forall|k: int| 0 <= k < i ==> ascii_upper(#[trigger] cs@[k]) == expected@[k],
        decreases 8 - i,
    {
        let c = cs[i];
        let upper = if 0x61 <= c as u32 && c as u32 <= 0x7A {
            let b = (c as u32 - 32) as u8;
            b as char
        } else {
            c
        };
        assert(upper == ascii_upper(c));
        if upper != expected[i] {
            return false;
        }
        i += 1;
    }
    true
}

/// The reference a text's style name (DXF 7) becomes, against the names of
/// the STYLE entries the file declares. A text that names a style resolves
/// when the file declares it and is unresolved, carrying the name, when it
/// does not. A text that names none stands for `STANDARD`, the reference's
/// default: it resolves to the first entry so named, whatever its case,
/// when the file declares one, and is absent when it does not -- then the
/// drawing has no style it could mean.
pub fn text_style_ref(style: &Option<String>, declared: &[String]) -> (r: Ref<String>)
    ensures
        style matches Some(name) ==> {
            if exists|i: int| 0 <= i < declared@.len() && declared@[i]@ == name@ {
                r matches Ref::Resolved(n) && n@ == name@
            } else {
                r matches Ref::Unresolved(n) && n@ == name@
            }
        },
        style is None ==> {
            if exists|i: int| 0 <= i < declared@.len() && is_standard(declared@[i]@) {
                exists|i: int|
                    0 <= i < declared@.len() && is_standard(declared@[i]@) && (forall|k: int|
                        0 <= k < i ==> !is_standard(#[trigger] declared@[k]@)) && (r matches Ref::Resolved(
                        n,
                    ) && n@ == declared@[i]@)
            } else {
                r == Ref::<String>::Absent
            }
        },
{
    match style {
        Some(name) => {
            if declares(declared, name) {
                Ref::Resolved(name.clone())
            } else {
                Ref::Unresolved(name.clone())
            }
        },
        None => {
            let mut i: usize = 0;
            while i < declared.len()
                invariant
                    style is None,
                    i <= declared@.len(),
                    forall|k: int| 0 <= k < i ==> !is_standard(#[trigger] declared@[k]@),
                decreases declared@.len() - i,
            {
                if names_standard(&declared[i]) {
                    return Ref::Resolved(declared[i].clone());
                }
                i += 1;
            }
            Ref::Absent
        },
    }
}

/// The reference an INSERT's block name (DXF 2) becomes, against the names
/// of the blocks the file defines: resolved when the file defines that
/// block, and otherwise unresolved, carrying the name the file wrote --
/// never absent, which would claim the drawing pointed at nothing.
pub fn block_ref(block: &String, declared: &[String]) -> (r: Ref<String>)
    ensures
        (exists|i: int| 0 <= i < declared@.len() && declared@[i]@ == block@) ==> (r matches Ref::Resolved(n) && n@ == block@),
        !(exists|i: int| 0 <= i < declared@.len() && declared@[i]@ == block@) ==> (r matches Ref::Unresolved(n) && n@ == block@),
{
    if declares(declared, block) {
        Ref::Resolved(block.clone())
    } else {
        Ref::Unresolved(block.clone())
    }
}

/// Whether `s` is `target`, ASCII letters of `s` compared without their
/// case (`target` being written in upper case).
pub open spec fn names_upper(s: Seq<char>, target: Seq<char>) -> bool {
    &&& s.len() == target.len()
    &&& forall|i: int| 0 <= i < s.len() ==> ascii_upper(#[trigger] s[i]) == target[i]
}

/// Whether the characters `cs` are `target` in upper case, ignoring the
/// case of ASCII letters in `cs`.
fn upper_is(cs: &Vec<char>, target: &[char]) -> (r: bool)
    ensures
        r == names_upper(cs@, target@),
{
    if cs.len() != target.len() {
        return false;
    }
    let mut i: usize = 0;
    while i < cs.len()
        invariant
            i <= cs@.len(),
            cs@.len() == target@.len(),
            forall|k: int| 0 <= k < i ==> ascii_upper(#[trigger] cs@[k]) == target@[k],
        decreases cs@.len() - i,
    {
        let c = cs[i];
        let upper = if 0x61 <= c as u32 && c as u32 <= 0x7A {
            let b = (c as u32 - 32) as u8;
            b as char
        } else {
            c
        };
        assert(upper == ascii_upper(c));
        if upper != target[i] {
            return false;
        }
        i += 1;
    }
    true
}

/// Whether the characters `cs` are exactly `target`.
fn chars_are(cs: &Vec<char>, target: &[char]) -> (r: bool)
    ensures
        r == (cs@ == target@),
{
    if cs.len() != target.len() {
        return false;
    }
    let mut i: usize = 0;
    while i < cs.len()
        invariant
            i <= cs@.len(),
            cs@.len() == target@.len(),
            forall|k: int| 0 <= k < i ==> cs@[k] == target@[k],
        decreases cs@.len() - i,
    {
        if cs[i] != target[i] {
            return false;
        }
        i += 1;
    }
    assert(cs@ =~= target@);
    true
}

/// The linetype an entity states (DXF 6) as the model reads it, against
/// the writer's LTYPE table, which declares `CONTINUOUS` alone: none, or
/// `BYLAYER` in any case, is its layer's; `BYBLOCK` in any case is its
/// block reference's; `CONTINUOUS` resolves; any other name is unresolved,
/// carrying the name.
pub fn entity_linetype(name: &Option<String>) -> (l: EntityLinetype)
    ensures
        name is None ==> l == EntityLinetype::ByLayer,
        name matches Some(n) ==> {
            if names_upper(n@, seq!['B', 'Y', 'L', 'A', 'Y', 'E', 'R']) {
                l == EntityLinetype::ByLayer
            } else if names_upper(n@, seq!['B', 'Y', 'B', 'L', 'O', 'C', 'K']) {
                l == EntityLinetype::ByBlock
            } else if n@ == seq!['C', 'O', 'N', 'T', 'I', 'N', 'U', 'O', 'U', 'S'] {
                l matches EntityLinetype::Named(Ref::Resolved(m)) && m@ == n@
            } else {
                l matches EntityLinetype::Named(Ref::Unresolved(m)) && m@ == n@
            }
        },
{
    match name {
        None => EntityLinetype::ByLayer,
        Some(n) => {
            let cs = chars_of(n.as_str());
            let by_layer = ['B', 'Y', 'L', 'A', 'Y', 'E', 'R'];
            let by_block = ['B', 'Y', 'B', 'L', 'O', 'C', 'K'];
            let continuous = ['C', 'O', 'N', 'T', 'I', 'N', 'U', 'O', 'U', 'S'];
            assert(by_layer@ == seq!['B', 'Y', 'L', 'A', 'Y', 'E', 'R']);
            assert(by_block@ == seq!['B', 'Y', 'B', 'L', 'O', 'C', 'K']);
            assert(continuous@ == seq!['C', 'O', 'N', 'T', 'I', 'N', 'U', 'O', 'U', 'S']);
            if upper_is(&cs, &by_layer) {
                EntityLinetype::ByLayer
            } else if upper_is(&cs, &by_block) {
                EntityLinetype::ByBlock
            } else if chars_are(&cs, &continuous) {
                EntityLinetype::Named(Ref::Resolved(n.clone()))
            } else {
                EntityLinetype::Named(Ref::Unresolved(n.clone()))
            }
        },
    }
}

/// The model's horizontal justification for a spec's DXF 72 code: none or 0
/// is left, then center, right, aligned, middle and fit.
pub fn horizontal(code: Option<u8>) -> (h: HorizontalJustification)
    requires
        code matches Some(c) ==> c <= 5,
    ensures
        (code is None || code == Some(0u8)) ==> h == HorizontalJustification::Left,
        code == Some(1u8) ==> h == HorizontalJustification::Center,
        code == Some(2u8) ==> h == HorizontalJustification::Right,
        code == Some(3u8) ==> h == HorizontalJustification::Aligned,
        code == Some(4u8) ==> h == HorizontalJustification::Middle,
        code == Some(5u8) ==> h == HorizontalJustification::Fit,
{
    match code {
        None | Some(0) => HorizontalJustification::Left,
        Some(1) => HorizontalJustification::Center,
        Some(2) => HorizontalJustification::Right,
        Some(3) => HorizontalJustification::Aligned,
        Some(4) => HorizontalJustification::Middle,
        Some(_) => HorizontalJustification::Fit,
    }
}

/// The model's vertical justification for a spec's DXF 73 (74 on an
/// attribute) code: none or 0 is the baseline, then bottom, middle and top.
pub fn vertical(code: Option<u8>) -> (v: VerticalJustification)
    requires
        code matches Some(c) ==> c <= 3,
    ensures
        (code is None || code == Some(0u8)) ==> v == VerticalJustification::Baseline,
        code == Some(1u8) ==> v == VerticalJustification::Bottom,
        code == Some(2u8) ==> v == VerticalJustification::Middle,
        code == Some(3u8) ==> v == VerticalJustification::Top,
{
    match code {
        None | Some(0) => VerticalJustification::Baseline,
        Some(1) => VerticalJustification::Bottom,
        Some(2) => VerticalJustification::Middle,
        Some(_) => VerticalJustification::Top,
    }
}

/// How many rows a mesh's `(i, j)-(i + 1, j)` edges start from: every row
/// when the mesh is closed in M, all but the last otherwise.
pub open spec fn mesh_rows(m: int, closed_m: bool) -> int {
    if closed_m {
        m
    } else {
        m - 1
    }
}

/// How many columns a mesh's `(i, j)-(i, j + 1)` edges start from: every
/// column when the mesh is closed in N, all but the last otherwise.
pub open spec fn mesh_columns(n: int, closed_n: bool) -> int {
    if closed_n {
        n
    } else {
        n - 1
    }
}

/// How many edges an `m` by `n` mesh's wireframe has.
pub open spec fn mesh_edge_count(m: int, n: int, closed_m: bool, closed_n: bool) -> int {
    mesh_rows(m, closed_m) * n + m * mesh_columns(n, closed_n)
}

/// The `k`-th edge of an `m` by `n` mesh's wireframe, as the indices of its
/// two vertices, vertex `i * n + j` being row `i`, column `j`: first
/// `(i, j)-(i + 1, j)` for each row `i` in turn and each column `j` within
/// it, then `(i, j)-(i, j + 1)` in the same order, `i + 1` and `j + 1`
/// wrapping to the first row or column where the mesh is closed that way.
pub open spec fn mesh_edge(m: int, n: int, closed_m: bool, closed_n: bool, k: int) -> (int, int) {
    let rows = mesh_rows(m, closed_m);
    if k < rows * n {
        let i = k / n;
        let j = k % n;
        (i * n + j, ((i + 1) % m) * n + j)
    } else {
        let columns = mesh_columns(n, closed_n);
        let i = (k - rows * n) / columns;
        let j = (k - rows * n) % columns;
        (i * n + j, i * n + (j + 1) % n)
    }
}

/// The wireframe of an `m` by `n` polygon mesh (DXF 71 and 72), closed in
/// M (DXF 70, bit 1) and in N (bit 32) as given, as the vertex indices of
/// its edges in the order the model fixes, so that two readers of one mesh
/// agree edge for edge.
pub fn mesh_edges(m: u16, n: u16, closed_m: bool, closed_n: bool) -> (edges: Vec<(usize, usize)>)
    requires
        !closed_m ==> m >= 1,
        !closed_n && m >= 1 ==> n >= 1,
        m as int * n as int <= usize::MAX,
    ensures
        edges@.len() == mesh_edge_count(m as int, n as int, closed_m, closed_n),
        forall|k: int|
            0 <= k < edges@.len() ==> #[trigger] edges@[k] == ((mesh_edge(
                m as int,
                n as int,
                closed_m,
                closed_n,
                k,
            ).0) as usize, (mesh_edge(m as int, n as int, closed_m, closed_n, k).1) as usize),
{
    let ghost (gm, gn) = (m as int, n as int);
    let m = m as usize;
    let n = n as usize;
    let rows = if closed_m {
        m
    } else {
        m - 1
    };
    let mut edges: Vec<(usize, usize)> = Vec::new();
    let mut i: usize = 0;
    while i < rows
        invariant
            gm == m,
            gn == n,
            rows == mesh_rows(gm, closed_m),
            rows <= m,
            m * n <= usize::MAX,
            i <= rows,
            edges@.len() == i * n,
            forall|k: int|
                0 <= k < edges@.len() ==> #[trigger] edges@[k] == ((mesh_edge(
                    gm,
                    gn,
                    closed_m,
                    closed_n,
                    k,
                ).0) as usize, (mesh_edge(gm, gn, closed_m, closed_n, k).1) as usize),
        decreases rows - i,
    {
        let mut j: usize = 0;
        while j < n
            invariant
                gm == m,
                gn == n,
                rows == mesh_rows(gm, closed_m),
                rows <= m,
                m * n <= usize::MAX,
                i < rows,
                j <= n,
                edges@.len() == i * n + j,
                forall|k: int|
                    0 <= k < edges@.len() ==> #[trigger] edges@[k] == ((mesh_edge(
                        gm,
                        gn,
                        closed_m,
                        closed_n,
                        k,
                    ).0) as usize, (mesh_edge(gm, gn, closed_m, closed_n, k).1) as usize),
            decreases n - j,
        {
            assert((i + 1) * n <= m * n && i * n + j < (i + 1) * n) by (nonlinear_arith)
                requires
                    i < rows <= m,
                    j < n,
            ;
            assert((i + 1) * n == i * n + n) by (nonlinear_arith);
            let next_row = if i + 1 == m {
                0
            } else {
                i + 1
            };
            assert(next_row == (i + 1) % (m as int)) by {
                if i + 1 == m {
                    vstd::arithmetic::div_mod::lemma_mod_self_0(m as int);
                } else {
                    vstd::arithmetic::div_mod::lemma_small_mod((i + 1) as nat, m as nat);
                }
            }
            assert(next_row * n + j < m * n) by (nonlinear_arith)
                requires
                    next_row < m,
                    j < n,
            ;
            let k = i * n + j;
            proof {
                vstd::arithmetic::div_mod::lemma_fundamental_div_mod_converse(
                    k as int,
                    n as int,
                    i as int,
                    j as int,
                );
                assert(rows * n >= (i + 1) * n) by (nonlinear_arith)
                    requires
                        i < rows,
                ;
            }
            edges.push((k, next_row * n + j));
            j += 1;
        }
        assert(i * n + n == (i + 1) * n) by (nonlinear_arith);
        i += 1;
    }
    let ghost first = rows * n;
    assert(edges@.len() == first);
    let columns = if closed_n {
        n
    } else if m == 0 {
        0
    } else {
        n - 1
    };
    assert(m >= 1 ==> columns == mesh_columns(gn, closed_n));
    let mut i: usize = 0;
    while i < m
        invariant
            gm == m,
            gn == n,
            rows == mesh_rows(gm, closed_m),
            first == rows * n,
            m >= 1 ==> columns == mesh_columns(gn, closed_n),
            columns <= n,
            m * n <= usize::MAX,
            i <= m,
            edges@.len() == first + i * columns,
            forall|k: int|
                0 <= k < edges@.len() ==> #[trigger] edges@[k] == ((mesh_edge(
                    gm,
                    gn,
                    closed_m,
                    closed_n,
                    k,
                ).0) as usize, (mesh_edge(gm, gn, closed_m, closed_n, k).1) as usize),
        decreases m - i,
    {
        let mut j: usize = 0;
        while j < columns
            invariant
                gm == m,
                gn == n,
                rows == mesh_rows(gm, closed_m),
                first == rows * n,
                columns == mesh_columns(gn, closed_n),
                columns <= n,
                m * n <= usize::MAX,
                i < m,
                j <= columns,
                edges@.len() == first + i * columns + j,
                forall|k: int|
                    0 <= k < edges@.len() ==> #[trigger] edges@[k] == ((mesh_edge(
                        gm,
                        gn,
                        closed_m,
                        closed_n,
                        k,
                    ).0) as usize, (mesh_edge(gm, gn, closed_m, closed_n, k).1) as usize),
            decreases columns - j,
        {
            assert(i * n + j < m * n && i * n + n <= m * n) by (nonlinear_arith)
                requires
                    i < m,
                    j < columns <= n,
            ;
            let next_column = if j + 1 == n {
                0
            } else {
                j + 1
            };
            assert(next_column == (j + 1) % (n as int)) by {
                if j + 1 == n {
                    vstd::arithmetic::div_mod::lemma_mod_self_0(n as int);
                } else {
                    vstd::arithmetic::div_mod::lemma_small_mod((j + 1) as nat, n as nat);
                }
            }
            let ghost k2: int = i * columns + j;
            proof {
                vstd::arithmetic::div_mod::lemma_fundamental_div_mod_converse(
                    k2,
                    columns as int,
                    i as int,
                    j as int,
                );
                assert(i * columns + j >= 0) by (nonlinear_arith)
                    requires
                        j >= 0,
                        columns >= 0,
                        i >= 0,
                ;
            }
            assert((first + k2) - rows * n == k2);
            edges.push((i * n + j, i * n + next_column));
            j += 1;
        }
        assert(first + i * columns + columns == first + (i + 1) * columns) by (nonlinear_arith);
        i += 1;
    }
    assert(m >= 1 ==> first + m * columns == mesh_edge_count(gm, gn, closed_m, closed_n));
    if m == 0 {
        assert(mesh_edge_count(gm, gn, closed_m, closed_n) == first + m * columns) by (
        nonlinear_arith)
            requires
                m == 0,
                first == rows * n,
                rows == mesh_rows(gm, closed_m),
                gm == m,
                gn == n,
        ;
    }
    edges
}

/// Every edge of a mesh's wireframe joins two vertices of the mesh: both
/// indices are below `m * n`, so a mesh of `m * n` vertices answers every
/// edge the wireframe lists.
pub proof fn mesh_edges_stay_in_the_grid(m: u16, n: u16, closed_m: bool, closed_n: bool, k: int)
    requires
        !closed_m ==> m >= 1,
        !closed_n && m >= 1 ==> n >= 1,
        0 <= k < mesh_edge_count(m as int, n as int, closed_m, closed_n),
    ensures
        0 <= mesh_edge(m as int, n as int, closed_m, closed_n, k).0 < m * n,
        0 <= mesh_edge(m as int, n as int, closed_m, closed_n, k).1 < m * n,
{
    let (gm, gn) = (m as int, n as int);
    let rows = mesh_rows(gm, closed_m);
    let columns = mesh_columns(gn, closed_n);
    assert(0 <= rows <= gm);
    if k < rows * gn {
        assert(gn > 0) by (nonlinear_arith)
            requires
                0 <= k < rows * gn,
                rows >= 0,
        ;
        let i = k / gn;
        let j = k % gn;
        vstd::arithmetic::div_mod::lemma_div_pos_is_pos(k, gn);
        vstd::arithmetic::div_mod::lemma_mod_bound(k, gn);
        assert(i < rows) by {
            assert(rows * gn == gn * rows) by (nonlinear_arith);
            vstd::arithmetic::div_mod::lemma_multiply_divide_lt(k, gn, rows);
        }
        vstd::arithmetic::div_mod::lemma_mod_bound(i + 1, gm);
        let next = (i + 1) % gm;
        assert(0 <= i * gn + j < gm * gn && 0 <= next * gn + j < gm * gn) by (nonlinear_arith)
            requires
                0 <= i < rows <= gm,
                0 <= next < gm,
                0 <= j < gn,
        ;
    } else {
        assert(k - rows * gn < gm * columns);
        assert(columns > 0 && gm > 0) by (nonlinear_arith)
            requires
                0 <= k - rows * gn < gm * columns,
                gm >= 0,
                columns >= 0,
        ;
        assert(columns <= gn);
        let r = k - rows * gn;
        let i = r / columns;
        let j = r % columns;
        vstd::arithmetic::div_mod::lemma_div_pos_is_pos(r, columns);
        vstd::arithmetic::div_mod::lemma_mod_bound(r, columns);
        assert(i < gm) by {
            assert(gm * columns == columns * gm) by (nonlinear_arith);
            vstd::arithmetic::div_mod::lemma_multiply_divide_lt(r, columns, gm);
        }
        vstd::arithmetic::div_mod::lemma_mod_bound(j + 1, gn);
        let next = (j + 1) % gn;
        assert(0 <= i * gn + j < gm * gn && 0 <= i * gn + next < gm * gn) by (nonlinear_arith)
            requires
                0 <= i < gm,
                0 <= j < columns <= gn,
                0 <= next < gn,
        ;
    }
}

/// The wireframe of a mesh lists, first, the edge from each vertex to the
/// one below it (row `i + 1`, wrapping to row 0 where the mesh is closed in
/// M), row by row and column by column within a row; then the edge from
/// each vertex to the one on its right (column `j + 1`, wrapping to column
/// 0 where it is closed in N), in the same order. Vertex `i * n + j` is row
/// `i`, column `j`.
pub proof fn mesh_edges_run_down_then_across(
    m: int,
    n: int,
    closed_m: bool,
    closed_n: bool,
    i: int,
    j: int,
)
    requires
        m >= 1,
        n >= 1,
    ensures
        0 <= i < (if closed_m { m } else { m - 1 }) && 0 <= j < n ==> mesh_edge(
            m,
            n,
            closed_m,
            closed_n,
            i * n + j,
        ) == (i * n + j, (if i + 1 == m { 0 } else { i + 1 }) * n + j),
        0 <= i < m && 0 <= j < (if closed_n { n } else { n - 1 }) ==> mesh_edge(
            m,
            n,
            closed_m,
            closed_n,
            (if closed_m { m } else { m - 1 }) * n + i * (if closed_n { n } else { n - 1 }) + j,
        ) == (i * n + j, i * n + (if j + 1 == n { 0 } else { j + 1 })),
        mesh_edge_count(m, n, closed_m, closed_n) == (if closed_m { m } else { m - 1 }) * n + m * (
        if closed_n { n } else { n - 1 }),
{
    let rows = if closed_m { m } else { m - 1 };
    let columns = if closed_n { n } else { n - 1 };
    assert(rows == mesh_rows(m, closed_m) && columns == mesh_columns(n, closed_n));
    if 0 <= i < rows && 0 <= j < n {
        let k = i * n + j;
        vstd::arithmetic::div_mod::lemma_fundamental_div_mod_converse(k, n, i, j);
        assert(k < rows * n) by (nonlinear_arith)
            requires
                0 <= i < rows,
                0 <= j < n,
                k == i * n + j,
        ;
        if i + 1 == m {
            vstd::arithmetic::div_mod::lemma_mod_self_0(m);
        } else {
            vstd::arithmetic::div_mod::lemma_small_mod((i + 1) as nat, m as nat);
        }
    }
    if 0 <= i < m && 0 <= j < columns {
        let r = i * columns + j;
        let k = rows * n + r;
        vstd::arithmetic::div_mod::lemma_fundamental_div_mod_converse(r, columns, i, j);
        assert(k >= rows * n && r >= 0) by (nonlinear_arith)
            requires
                0 <= i,
                0 <= j,
                columns >= 1,
                r == i * columns + j,
                k == rows * n + r,
        ;
        if j + 1 == n {
            vstd::arithmetic::div_mod::lemma_mod_self_0(n);
        } else {
            vstd::arithmetic::div_mod::lemma_small_mod((j + 1) as nat, n as nat);
        }
    }
}

} // verus!
