//! Dispatch of a classified cell against the triangle connectivity table.
//!
//! The table is an externally owned, read-only resource: 256 rows, one per
//! configuration, each a fixed-width sequence of sixteen signed bytes. A row
//! holds up to four triangles of three edge indices each (twelve meaningful
//! slots, padded to sixteen for alignment); a negative entry is the sentinel
//! marking the end of the triangle list, and rows are front-packed, so all
//! slots from the first sentinel on are sentinels.

use vstd::prelude::*;
use crate::config::classify;
use crate::config::config_index;

verus! {

/// The first `n` slots of a row are edge indices and every later slot is the
/// sentinel, with `n` a whole number of triangles.
pub open spec fn packed_to(row: Seq<i8>, n: int) -> bool {
    &&& 0 <= n <= 12
    &&& n % 3 == 0
    &&& forall|j: int| 0 <= j < n ==> #[trigger] row[j] >= 0
    &&& forall|j: int| n <= j < 16 ==> #[trigger] row[j] == -1
}

/// A well-formed connectivity row: sixteen slots, each below twelve, holding a
/// front-packed triangle list followed by sentinels.
pub open spec fn row_well_formed(row: Seq<i8>) -> bool {
    &&& row.len() == 16
    &&& (forall|j: int| 0 <= j < 16 ==> #[trigger] row[j] < 12)
    &&& exists|n: int| packed_to(row, n)
}

/// A well-formed connectivity table: 256 well-formed rows, and the two uniform
/// configurations (no corner inside, every corner inside) list no triangles,
/// since a uniform cell is not crossed by the surface.
pub open spec fn table_well_formed(table: Seq<[i8; 16]>) -> bool {
    &&& table.len() == 256
    &&& (forall|c: int| 0 <= c < 256 ==> row_well_formed(#[trigger] table[c]@))
    &&& table[0]@[0] == -1
    &&& table[255]@[0] == -1
}

/// The number of edge slots in use in a row: the unique point up to which the
/// row is packed.
pub open spec fn active_slots(row: Seq<i8>) -> int {
    choose|n: int| packed_to(row, n)
}

/// The edge indices a row lists, in table order: its active slots, read front
/// to back.
pub open spec fn triangle_edge_seq(row: Seq<i8>) -> Seq<int> {
    Seq::new(active_slots(row) as nat, |k: int| row[k] as int)
}

/// A well-formed row is packed up to `active_slots`.
pub proof fn lemma_active_slots(row: Seq<i8>)
    requires
        row_well_formed(row),
    ensures
        packed_to(row, active_slots(row)),
{
    assert(exists|n: int| packed_to(row, n));
}

/// The triangle list of a well-formed row is a whole number of triangles, at
/// most four, and every listed edge index names one of the cube's twelve
/// edges.
pub proof fn lemma_triangle_edge_seq_props(row: Seq<i8>)
    requires
        row_well_formed(row),
    ensures
        triangle_edge_seq(row).len() % 3 == 0,
        triangle_edge_seq(row).len() <= 12,
        forall|k: int|
            0 <= k < triangle_edge_seq(row).len() ==> 0 <= #[trigger] triangle_edge_seq(row)[k]
                < 12,
{
    lemma_active_slots(row);
}

/// Look up the triangle list for one configuration.
///
/// Returns the edge indices of the configuration's triangles in table order:
/// three consecutive entries per triangle, in the winding order the table
/// encodes. The result is empty exactly when the row's first slot is the
/// sentinel; in particular the two uniform configurations yield no triangles.
pub fn triangle_edges(table: &[[i8; 16]; 256], config: u8) -> (edges: Vec<u8>)
    requires
        table_well_formed(table@),
    ensures
        edges@.map_values(|e: u8| e as int) == triangle_edge_seq(table@[config as int]@),
        forall|k: int|
            0 <= k < edges@.len() ==> #[trigger] edges@[k] as int == table@[config as int]@[k],
        edges@.len() < 12 ==> table@[config as int]@[edges@.len() as int] < 0,
        edges@.len() % 3 == 0,
        edges@.len() <= 12,
        forall|k: int| 0 <= k < edges@.len() ==> #[trigger] edges@[k] < 12,
        config == 0 || config == 255 ==> edges@.len() == 0,
{
    let row: &[i8; 16] = &table[config as usize];
    proof {
        lemma_active_slots(row@);
    }
    let ghost n: int = active_slots(row@);
    let mut edges: Vec<u8> = Vec::new();
    let mut i: usize = 0;
    while i < 5 && row[3 * i] >= 0
        invariant
            row@ == table@[config as int]@,
            row_well_formed(row@),
            packed_to(row@, n),
            n == active_slots(row@),
            i <= 4,
            edges@.len() == 3 * i,
            3 * i <= n,
            forall|k: int| 0 <= k < edges@.len() ==> #[trigger] edges@[k] as int == row@[k],
        decreases n - 3 * i,
    {
        assert(3 * i < n);
        assert(3 * i + 3 <= n);
        edges.push(row[3 * i] as u8);
        edges.push(row[3 * i + 1] as u8);
        edges.push(row[3 * i + 2] as u8);
        i = i + 1;
    }
    proof {
        assert(edges@.len() == n);
        assert(edges@.map_values(|e: u8| e as int) =~= triangle_edge_seq(row@));
        if config == 0 || config == 255 {
            assert(row@[0] == -1);
            assert(n == 0);
        }
    }
    edges
}

/// March a single cube, given the connectivity table and the eight corner
/// flags (corner `i` is inside exactly when its density is at or below zero).
///
/// `edge_func` is invoked once for each vertex of the resulting mesh data,
/// with the index of the edge on which the vertex falls: once per entry of
/// `triangle_edge_seq` of the configuration's row, in table order, so a
/// multiple of three times and at most twelve times, each triplet forming one
/// triangle. Output flows through the callback rather than a returned buffer
/// so that callers producing indexed geometry can deduplicate shared vertices
/// by edge index across neighbouring cells.
pub fn march_cube<E: Fn(usize)>(table: &[[i8; 16]; 256], inside: &[bool; 8], edge_func: E)
    requires
        table_well_formed(table@),
        forall|e: usize| e < 12 ==> #[trigger] call_requires(edge_func, (e,)),
{
    let config = classify(inside);
    let edges = triangle_edges(table, config);
    let mut k: usize = 0;
    while k < edges.len()
        invariant
            forall|e: usize| e < 12 ==> #[trigger] call_requires(edge_func, (e,)),
            forall|j: int| 0 <= j < edges@.len() ==> #[trigger] edges@[j] < 12,
            k <= edges@.len(),
        decreases edges@.len() - k,
    {
        let e = edges[k];
        edge_func(e as usize);
        k = k + 1;
    }
}

/// Decide at run time whether one connectivity row is well formed.
fn check_row(row: &[i8; 16]) -> (ok: bool)
    ensures
        ok == row_well_formed(row@),
{
    let mut i: usize = 0;
    while i < 16 && row[i] >= 0
        invariant
            i <= 16,
            forall|j: int| 0 <= j < i ==> #[trigger] row@[j] >= 0,
        decreases 16 - i,
    {
        i = i + 1;
    }
    // `i` is the first sentinel position, or 16 when no slot is negative.
    if i > 12 || i % 3 != 0 {
        proof {
            assert forall|m: int| !packed_to(row@, m) by {
                if packed_to(row@, m) {
                    if m < i {
                        assert(row@[m] >= 0);
                    } else {
                        assert(i < m);
                        assert(row@[i as int] < 0);
                    }
                }
            }
        }
        return false;
    }
    let ghost first_neg: int = i as int;
    let mut j: usize = i;
    while j < 16
        invariant
            first_neg <= j <= 16,
            first_neg == i as int,
            i <= 12,
            row@[first_neg] < 0,
            forall|m: int| 0 <= m < first_neg ==> #[trigger] row@[m] >= 0,
            forall|m: int| first_neg <= m < j ==> #[trigger] row@[m] == -1,
        decreases 16 - j,
    {
        if row[j] != -1 {
            proof {
                assert forall|m: int| !packed_to(row@, m) by {
                    if packed_to(row@, m) {
                        if m <= j {
                            assert(row@[j as int] == -1);
                        } else {
                            assert(row@[first_neg] >= 0);
                        }
                    }
                }
            }
            return false;
        }
        j = j + 1;
    }
    let mut k: usize = 0;
    while k < 16
        invariant
            k <= 16,
            forall|m: int| 0 <= m < k ==> #[trigger] row@[m] < 12,
        decreases 16 - k,
    {
        if row[k] >= 12 {
            return false;
        }
        k = k + 1;
    }
    proof {
        assert(packed_to(row@, first_neg));
    }
    true
}

/// Decide at run time whether a whole connectivity table is well formed, so
/// that a table obtained from an outside source can be checked once before
/// marching any cell against it.
pub fn check_table(table: &[[i8; 16]; 256]) -> (ok: bool)
    ensures
        ok == table_well_formed(table@),
{
    let mut c: usize = 0;
    while c < 256
        invariant
            c <= 256,
            forall|m: int| 0 <= m < c ==> row_well_formed(#[trigger] table@[m]@),
        decreases 256 - c,
    {
        if !check_row(&table[c]) {
            return false;
        }
        c = c + 1;
    }
    if table[0][0] != -1 {
        return false;
    }
    if table[255][0] != -1 {
        return false;
    }
    true
}

} // verus!
