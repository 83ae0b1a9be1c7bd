//! The mesh assembler: concatenating per-piece tessellations into one
//! indexed buffer.
//!
//! Every non-empty piece is tessellated independently; each of its
//! vertices gets the unit up normal and its own x and y as texture
//! coordinates; its triangle indices are shifted by the number of
//! vertices emitted before it, so the combined index list is valid
//! against the combined position list. `append_tessellation`'s contract
//! is the partition law: the indices a piece contributes all point at or
//! past the vertices that were already there, and before the new total.

use vstd::prelude::*;

use crate::pattern::PatternPieceData;
use crate::tess::{flat_triples, tess_polygon};

verus! {

/// A flat triangle mesh: positions as x, y, z triples (z always zero),
/// normals as triples (always the unit z, scaled to thousandths),
/// triangle indices, and texture coordinates as pairs. All lengths are
/// fixed-point thousandths.
#[derive(Clone, Debug)]
pub struct MeshData {
    pub positions: Vec<i64>,
    pub normals: Vec<i64>,
    pub indices: Vec<u32>,
    pub uvs: Vec<i64>,
}

impl MeshData {
    /// Structural validity: triples and pairs line up, every triangle
    /// index addresses a vertex, every normal is the unit z.
    pub open spec fn wf(self) -> bool {
        &&& self.positions@.len() % 3 == 0
        &&& self.normals@.len() == self.positions@.len()
        &&& self.uvs@.len() * 3 == self.positions@.len() * 2
        &&& self.indices@.len() % 3 == 0
        &&& self.positions@.len() <= 3 * 0xffff_ffff
        &&& forall|i: int|
            0 <= i < self.indices@.len() ==> 3 * (#[trigger] self.indices@[i]) + 2
                < self.positions@.len()
        &&& forall|v: int|
            0 <= v < self.normals@.len() / 3 ==> self.normals@[3 * v] == 0 && self.normals@[#[trigger] (
            3 * v) + 1] == 0 && self.normals@[3 * v + 2] == 1000
        &&& forall|v: int|
            0 <= v < self.uvs@.len() / 2 ==> self.uvs@[2 * v] == self.positions@[#[trigger] (3 * v)]
                && self.uvs@[2 * v + 1] == self.positions@[3 * v + 1]
    }

    /// The number of vertices.
    pub open spec fn vertex_count(self) -> int {
        self.positions@.len() as int / 3
    }

    /// An empty mesh, structurally valid.
    pub fn empty() -> (m: MeshData)
        ensures
            m.wf(),
            m.positions@.len() == 0,
            m.normals@.len() == 0,
            m.indices@.len() == 0,
            m.uvs@.len() == 0,
    {
        MeshData { positions: Vec::new(), normals: Vec::new(), indices: Vec::new(), uvs: Vec::new() }
    }
}

/// Append one tessellation to the mesh. The partition law of mesh
/// assembly: the new positions follow the old ones unchanged; every
/// index the tessellation contributes is shifted by the old vertex
/// count, so it is at least the old count and less than the new one.
/// Fails (leaving the mesh unchanged) only when the combined vertex
/// count would no longer fit the index type.
pub fn append_tessellation(mesh: &mut MeshData, pos: &Vec<i64>, idx: &Vec<u32>) -> (r: Result<
    (),
    String,
>)
    requires
        old(mesh).wf(),
        pos@.len() % 3 == 0,
        idx@.len() % 3 == 0,
        forall|i: int| 0 <= i < idx@.len() ==> 3 * (#[trigger] idx@[i]) + 2 < pos@.len(),
    ensures
        r is Ok ==> ({
            &&& final (mesh).wf()
            &&& final (mesh).positions@ == old(mesh).positions@ + pos@
            &&& final (mesh).vertex_count() == old(mesh).vertex_count() + pos@.len() / 3
            &&& final (mesh).indices@.len() == old(mesh).indices@.len() + idx@.len()
            &&& (forall|i: int|
                0 <= i < old(mesh).indices@.len() ==> #[trigger] final (mesh).indices@[i]
                    == old(mesh).indices@[i])
            &&& (forall|i: int|
                old(mesh).indices@.len() <= i < final (mesh).indices@.len()
                    ==> old(mesh).vertex_count() <= #[trigger] final (mesh).indices@[i]
                    < final (mesh).vertex_count())
        }),
        r is Err ==> *final (mesh) == *old(mesh) && old(mesh).vertex_count() + pos@.len() / 3
            > 0xffff_ffff,
        r is Ok <==> old(mesh).vertex_count() + pos@.len() / 3 <= 0xffff_ffff,
{
    let vc = pos.len() / 3;
    let offset = mesh.positions.len() / 3;
    if vc > 0xffff_ffffusize - offset {
        return Err(String::from_str("Mesh exceeds the index capacity"));
    }
    let off32: u32 = offset as u32;

    let ghost oldpos = mesh.positions@;
    let mut j: usize = 0;
    while j < pos.len()
        invariant
            0 <= j <= pos@.len(),
            mesh.positions@ =~= oldpos + pos@.take(j as int),
            mesh.normals@ == old(mesh).normals@,
            mesh.uvs@ == old(mesh).uvs@,
            mesh.indices@ == old(mesh).indices@,
        decreases pos@.len() - j,
    {
        let v = pos[j];
        mesh.positions.push(v);
        proof {
            assert(mesh.positions@ =~= oldpos + pos@.take(j + 1));
        }
        j = j + 1;
    }
    proof {
        assert(pos@.take(pos@.len() as int) =~= pos@);
    }

    let ghost newpos = mesh.positions@;
    let ghost oldnorm = mesh.normals@;
    let mut v: usize = 0;
    while v < vc
        invariant
            0 <= v <= vc,
            mesh.positions@ == newpos,
            mesh.uvs@ == old(mesh).uvs@,
            mesh.indices@ == old(mesh).indices@,
            mesh.normals@.len() == oldnorm.len() + 3 * v,
            forall|t: int|
                0 <= t < oldnorm.len() ==> #[trigger] mesh.normals@[t] == oldnorm[t],
            forall|t: int|
                0 <= t < v ==> mesh.normals@[oldnorm.len() + 3 * t] == 0 && mesh.normals@[
                    #[trigger] (oldnorm.len() + 3 * t) + 1] == 0 && mesh.normals@[oldnorm.len() + 3
                    * t + 2] == 1000,
        decreases vc - v,
    {
        let ghost pre = mesh.normals@;
        mesh.normals.push(0);
        mesh.normals.push(0);
        mesh.normals.push(1000);
        proof {
            assert(mesh.normals@ =~= pre + seq![0i64, 0i64, 1000i64]);
        }
        v = v + 1;
    }

    let ghost newnorm = mesh.normals@;
    let ghost olduv = mesh.uvs@;
    let mut u: usize = 0;
    while u < vc
        invariant
            0 <= u <= vc,
            vc == pos@.len() / 3,
            pos@.len() % 3 == 0,
            pos@.len() <= usize::MAX,
            mesh.positions@ == newpos,
            mesh.normals@ == newnorm,
            mesh.indices@ == old(mesh).indices@,
            mesh.uvs@.len() == olduv.len() + 2 * u,
            forall|t: int| 0 <= t < olduv.len() ==> #[trigger] mesh.uvs@[t] == olduv[t],
            forall|t: int|
                0 <= t < u ==> mesh.uvs@[olduv.len() + 2 * t] == pos@[3 * t] && mesh.uvs@[
                    #[trigger] (olduv.len() + 2 * t) + 1] == pos@[3 * t + 1],
        decreases vc - u,
    {
        proof {
            vstd::arithmetic::div_mod::lemma_fundamental_div_mod(pos@.len() as int, 3);
            assert(3 * (u as int) + 2 < pos@.len());
        }
        let ghost pre = mesh.uvs@;
        let ux = pos[3 * u];
        let uy = pos[3 * u + 1];
        mesh.uvs.push(ux);
        mesh.uvs.push(uy);
        proof {
            assert(mesh.uvs@ =~= pre + seq![ux, uy]);
        }
        u = u + 1;
    }

    let ghost newuv = mesh.uvs@;
    let ghost oldidx = mesh.indices@;
    let mut i: usize = 0;
    while i < idx.len()
        invariant
            0 <= i <= idx@.len(),
            off32 == old(mesh).vertex_count(),
            vc == pos@.len() / 3,
            pos@.len() % 3 == 0,
            off32 + vc <= 0xffff_ffff,
            mesh.positions@ == newpos,
            mesh.normals@ == newnorm,
            mesh.uvs@ == newuv,
            forall|t: int| 0 <= t < idx@.len() ==> 3 * (#[trigger] idx@[t]) + 2 < pos@.len(),
            mesh.indices@.len() == oldidx.len() + i,
            forall|t: int| 0 <= t < oldidx.len() ==> #[trigger] mesh.indices@[t] == oldidx[t],
            forall|t: int|
                oldidx.len() <= t < mesh.indices@.len() ==> off32 <= #[trigger] mesh.indices@[t]
                    < off32 + vc,
        decreases idx@.len() - i,
    {
        let x = idx[i];
        proof {
            assert(3 * idx@[i as int] + 2 < pos@.len());
            assert(idx@[i as int] < vc) by {
                assert(3 * idx@[i as int] < 3 * vc);
            }
        }
        mesh.indices.push(x + off32);
        i = i + 1;
    }

    proof {
        lemma_concat_div3(oldpos.len() as int, pos@.len() as int);
        vstd::arithmetic::div_mod::lemma_fundamental_div_mod(oldpos.len() as int, 3);
        vstd::arithmetic::div_mod::lemma_fundamental_div_mod(pos@.len() as int, 3);
        vstd::arithmetic::div_mod::lemma_fundamental_div_mod(olduv.len() as int, 2);
        let ghost ovc = oldpos.len() as int / 3;
        assert(oldnorm.len() == 3 * ovc);
        assert(olduv.len() == 2 * ovc) by {
            assert(olduv.len() * 3 == oldpos.len() * 2);
        }
        assert(mesh.positions@ =~= oldpos + pos@);
        assert forall|w: int| 0 <= w < mesh.normals@.len() / 3 implies mesh.normals@[3 * w] == 0
            && mesh.normals@[#[trigger] (3 * w) + 1] == 0 && mesh.normals@[3 * w + 2]
            == 1000 by {
            if w < ovc {
                assert(mesh.normals@[3 * w] == oldnorm[3 * w]);
                assert(mesh.normals@[3 * w + 1] == oldnorm[3 * w + 1]);
                assert(mesh.normals@[3 * w + 2] == oldnorm[3 * w + 2]);
                assert(oldnorm[3 * w] == 0 && oldnorm[(3 * w) + 1] == 0 && oldnorm[3 * w + 2]
                    == 1000);
            } else {
                let tt = w - ovc;
                assert(mesh.normals@[oldnorm.len() + 3 * tt] == 0 && mesh.normals@[(oldnorm.len()
                    + 3 * tt) + 1] == 0 && mesh.normals@[oldnorm.len() + 3 * tt + 2] == 1000);
            }
        }
        assert forall|w: int| 0 <= w < mesh.uvs@.len() / 2 implies mesh.uvs@[2 * w]
            == mesh.positions@[#[trigger] (3 * w)] && mesh.uvs@[2 * w + 1] == mesh.positions@[3 * w
            + 1] by {
            if w < ovc {
                assert(mesh.uvs@[2 * w] == olduv[2 * w]);
                assert(mesh.uvs@[2 * w + 1] == olduv[2 * w + 1]);
                assert(olduv[2 * w] == oldpos[(3 * w)] && olduv[2 * w + 1] == oldpos[3 * w + 1]);
                assert(mesh.positions@[3 * w] == oldpos[3 * w]);
                assert(mesh.positions@[3 * w + 1] == oldpos[3 * w + 1]);
            } else {
                let tt = w - ovc;
                assert(mesh.uvs@[olduv.len() + 2 * tt] == pos@[3 * tt] && mesh.uvs@[(olduv.len()
                    + 2 * tt) + 1] == pos@[3 * tt + 1]);
                assert(mesh.positions@[oldpos.len() + 3 * tt] == pos@[3 * tt]);
                assert(mesh.positions@[oldpos.len() + 3 * tt + 1] == pos@[3 * tt + 1]);
            }
        }
        assert forall|i2: int| 0 <= i2 < mesh.indices@.len() implies 3 * (
        #[trigger] mesh.indices@[i2]) + 2 < mesh.positions@.len() by {
            if i2 < oldidx.len() {
                assert(mesh.indices@[i2] == oldidx[i2]);
            } else {
                assert(off32 <= mesh.indices@[i2] < off32 + vc);
                assert(3 * (mesh.indices@[i2] as int) < 3 * (off32 + vc)) by (nonlinear_arith)
                    requires
                        mesh.indices@[i2] < off32 + vc,
                ;
            }
        }
    }
    Ok(())
}

/// Lengths that are multiples of three add up to one.
proof fn lemma_concat_div3(a: int, b: int)
    requires
        a % 3 == 0,
        b % 3 == 0,
        a >= 0,
        b >= 0,
    ensures
        (a + b) % 3 == 0,
        (a + b) / 3 == a / 3 + b / 3,
{
    vstd::arithmetic::div_mod::lemma_fundamental_div_mod(a, 3);
    vstd::arithmetic::div_mod::lemma_fundamental_div_mod(b, 3);
    vstd::arithmetic::div_mod::lemma_fundamental_div_mod_converse(a + b, 3, a / 3 + b / 3, 0);
}

/// The flat position triples one piece contributes to the assembled
/// mesh: its tessellation's vertex triples, or nothing when the outline
/// is empty or the polygon collapses below a triangle.
pub open spec fn piece_flat_positions(p: PatternPieceData) -> Seq<i64> {
    if p.outline@.len() == 0 {
        Seq::<i64>::empty()
    } else {
        let poly = tess_polygon(p.origin.x as int, p.origin.y as int, p.outline@);
        if poly.len() >= 3 {
            flat_triples(poly)
        } else {
            Seq::<i64>::empty()
        }
    }
}

/// The number of triangle indices one piece contributes: three per
/// triangle, one triangle fewer than two short of its vertex count.
pub open spec fn piece_index_count(p: PatternPieceData) -> int {
    let v = piece_flat_positions(p).len() / 3;
    if v >= 3 {
        3 * (v - 3) + 3
    } else {
        0
    }
}

/// The assembled position array over the first `k` pieces.
pub open spec fn mesh_positions_upto(pieces: Seq<PatternPieceData>, k: int) -> Seq<i64>
    decreases k,
{
    if k <= 0 {
        Seq::<i64>::empty()
    } else {
        mesh_positions_upto(pieces, k - 1) + piece_flat_positions(pieces[k - 1])
    }
}

/// The assembled index count over the first `k` pieces.
pub open spec fn index_count_upto(pieces: Seq<PatternPieceData>, k: int) -> int
    decreases k,
{
    if k <= 0 {
        0
    } else {
        index_count_upto(pieces, k - 1) + piece_index_count(pieces[k - 1])
    }
}

/// Assembling more pieces never shrinks the position array.
proof fn lemma_positions_upto_monotone(pieces: Seq<PatternPieceData>, k: int, m: int)
    requires
        0 <= k <= m <= pieces.len(),
    ensures
        mesh_positions_upto(pieces, k).len() <= mesh_positions_upto(pieces, m).len(),
    decreases m - k,
{
    if k < m {
        lemma_positions_upto_monotone(pieces, k + 1, m);
    }
}

/// Generate one flat mesh from a piece set: every piece with a
/// non-empty outline is tessellated and appended in caller order;
/// pieces whose outlines are all empty yield a structurally valid,
/// all-empty mesh. The result's positions are exactly the concatenated
/// per-piece tessellation triples, and the indices of piece `k`'s block
/// all point into piece `k`'s vertex range. Fails exactly when the
/// total vertex count outgrows the index type.
#[verifier::rlimit(100)]
pub fn generate_mesh(pieces: &[PatternPieceData]) -> (r: Result<MeshData, String>)
    requires
        crate::pattern::wf_pieces(pieces@),
        forall|i: int|
            0 <= i < pieces@.len() ==> (#[trigger] pieces@[i]).outline@.len()
                <= crate::flatten::MAX_SEGMENTS as int,
    ensures
        r is Ok <==> mesh_positions_upto(pieces@, pieces@.len() as int).len() <= 3 * 0xffff_ffff,
        r is Ok ==> ({
            let m = r->Ok_0;
            &&& m.wf()
            &&& m.positions@ == mesh_positions_upto(pieces@, pieces@.len() as int)
            &&& m.indices@.len() == index_count_upto(pieces@, pieces@.len() as int)
            &&& (forall|k: int, t: int|
                #![trigger index_count_upto(pieces@, k), m.indices@[t]]
                0 <= k < pieces@.len() && index_count_upto(pieces@, k) <= t < index_count_upto(
                    pieces@,
                    k + 1,
                ) ==> mesh_positions_upto(pieces@, k).len() / 3 <= m.indices@[t]
                    < mesh_positions_upto(pieces@, k + 1).len() / 3)
        }),
{
    let mut mesh = MeshData::empty();
    let mut i: usize = 0;
    proof {
        assert(mesh.positions@ =~= mesh_positions_upto(pieces@, 0));
    }
    while i < pieces.len()
        invariant
            0 <= i <= pieces@.len(),
            crate::pattern::wf_pieces(pieces@),
            forall|j: int|
                0 <= j < pieces@.len() ==> (#[trigger] pieces@[j]).outline@.len()
                    <= crate::flatten::MAX_SEGMENTS as int,
            mesh.wf(),
            mesh.positions@ == mesh_positions_upto(pieces@, i as int),
            mesh.indices@.len() == index_count_upto(pieces@, i as int),
            forall|k: int, t: int|
                #![trigger index_count_upto(pieces@, k), mesh.indices@[t]]
                0 <= k < i && index_count_upto(pieces@, k) <= t < index_count_upto(pieces@, k + 1)
                    ==> mesh_positions_upto(pieces@, k).len() / 3 <= mesh.indices@[t]
                    < mesh_positions_upto(pieces@, k + 1).len() / 3,
        decreases pieces@.len() - i,
    {
        let piece = &pieces[i];
        let ghost prev_positions = mesh.positions@;
        let ghost prev_indices = mesh.indices@;
        let ghost prev_index_len = mesh.indices@.len() as int;
        proof {
            assert(forall|k: int, t: int|
                #![trigger index_count_upto(pieces@, k), prev_indices[t]]
                0 <= k < i && index_count_upto(pieces@, k) <= t < index_count_upto(pieces@, k + 1)
                    ==> mesh_positions_upto(pieces@, k).len() / 3 <= prev_indices[t]
                    < mesh_positions_upto(pieces@, k + 1).len() / 3);
        }
        if piece.outline.len() > 0 {
            let tess = crate::tess::tessellate_outline(&piece.origin, piece.outline.as_slice());
            match tess {
                Ok((pos, idx)) => {
                    proof {
                        assert forall|t: int| 0 <= t < idx@.len() implies 3 * (#[trigger] idx@[t])
                            + 2 < pos@.len() by {}
                        vstd::arithmetic::div_mod::lemma_mod_bound(pos@.len() as int, 3);
                        assert(pos@ == piece_flat_positions(pieces@[i as int]));
                        assert(idx@.len() == piece_index_count(pieces@[i as int])) by {
                            if pos@.len() >= 9 {
                                lemma_concat_div3(0, pos@.len() as int);
                            }
                        }
                    }
                    let ap = append_tessellation(&mut mesh, &pos, &idx);
                    match ap {
                        Ok(()) => {
                            proof {
                                lemma_generate_step(
                                    pieces@,
                                    i as int,
                                    prev_positions,
                                    prev_index_len,
                                    mesh,
                                );
                                assert forall|k: int, t: int|
                                    #![trigger index_count_upto(pieces@, k), mesh.indices@[t]]
                                    0 <= k < i + 1 && index_count_upto(pieces@, k) <= t
                                        < index_count_upto(pieces@, k + 1) implies
                                    mesh_positions_upto(pieces@, k).len() / 3 <= mesh.indices@[t]
                                        < mesh_positions_upto(pieces@, k + 1).len() / 3 by {
                                    if k < i {
                                        lemma_index_count_monotone(pieces@, 0, k);
                                        lemma_index_count_monotone(pieces@, k + 1, i as int);
                                        assert(0 <= t);
                                        assert(t < prev_index_len);
                                        assert(mesh.indices@[t] == prev_indices[t]);
                                        assert(mesh_positions_upto(pieces@, k).len() / 3
                                            <= prev_indices[t] < mesh_positions_upto(
                                            pieces@,
                                            k + 1,
                                        ).len() / 3);
                                    }
                                }
                            }
                        },
                        Err(e) => {
                            proof {
                                assert(mesh_positions_upto(pieces@, i + 1).len() > 3
                                    * 0xffff_ffff) by {
                                    lemma_concat_div3(
                                        prev_positions.len() as int,
                                        pos@.len() as int,
                                    );
                                }
                                lemma_positions_upto_monotone(
                                    pieces@,
                                    i + 1,
                                    pieces@.len() as int,
                                );
                            }
                            return Err(e);
                        },
                    }
                },
                Err(e) => {
                    // Unreachable: tessellation fails only on an empty
                    // outline, and this branch holds a non-empty one.
                    proof {
                        assert(false);
                    }
                    return Err(e);
                },
            }
        } else {
            proof {
                assert(piece_flat_positions(pieces@[i as int]) =~= Seq::<i64>::empty());
                assert(mesh.positions@ =~= mesh_positions_upto(pieces@, i + 1));
            }
        }
        i = i + 1;
    }
    proof {
        vstd::arithmetic::div_mod::lemma_fundamental_div_mod(mesh.positions@.len() as int, 3);
        assert forall|k: int, t: int|
            #![trigger index_count_upto(pieces@, k), mesh.indices@[t]]
            0 <= k < pieces@.len() && index_count_upto(pieces@, k) <= t < index_count_upto(
                pieces@,
                k + 1,
            ) implies mesh_positions_upto(pieces@, k).len() / 3 <= mesh.indices@[t]
            < mesh_positions_upto(pieces@, k + 1).len() / 3 by {
            lemma_index_count_monotone(pieces@, 0, k);
            lemma_index_count_monotone(pieces@, k + 1, pieces@.len() as int);
        }
    }
    Ok(mesh)
}

/// A piece never contributes a negative index count.
proof fn lemma_piece_index_count_nonneg(p: PatternPieceData)
    ensures
        piece_index_count(p) >= 0,
{
    vstd::arithmetic::div_mod::lemma_div_pos_is_pos(piece_flat_positions(p).len() as int, 3);
}

/// Assembling more pieces never shrinks the index count.
proof fn lemma_index_count_monotone(pieces: Seq<PatternPieceData>, k: int, m: int)
    requires
        0 <= k <= m <= pieces.len(),
    ensures
        index_count_upto(pieces, k) <= index_count_upto(pieces, m),
    decreases m - k,
{
    if k < m {
        lemma_piece_index_count_nonneg(pieces[k]);
        lemma_index_count_monotone(pieces, k + 1, m);
    }
}

/// One appended tessellation extends the fold by exactly one piece:
/// the positions concatenate and the fresh index block sits in the new
/// vertex range.
proof fn lemma_generate_step(
    pieces: Seq<PatternPieceData>,
    i: int,
    prev_positions: Seq<i64>,
    prev_index_len: int,
    mesh: MeshData,
)
    requires
        0 <= i < pieces.len(),
        prev_positions == mesh_positions_upto(pieces, i),
        mesh.positions@ == prev_positions + piece_flat_positions(pieces[i]),
        prev_positions.len() % 3 == 0,
        piece_flat_positions(pieces[i]).len() % 3 == 0,
        mesh.indices@.len() == prev_index_len + piece_index_count(pieces[i]),
        prev_index_len == index_count_upto(pieces, i),
        forall|t: int|
            prev_index_len <= t < mesh.indices@.len() ==> prev_positions.len() / 3 <= #[trigger] mesh.indices@[t]
                < mesh.positions@.len() as int / 3,
    ensures
        mesh.positions@ == mesh_positions_upto(pieces, i + 1),
        mesh.indices@.len() == index_count_upto(pieces, i + 1),
        forall|t: int|
            index_count_upto(pieces, i) <= t < index_count_upto(pieces, i + 1)
                ==> mesh_positions_upto(pieces, i).len() / 3 <= #[trigger] mesh.indices@[t]
                < mesh_positions_upto(pieces, i + 1).len() / 3,
{
    lemma_concat_div3(prev_positions.len() as int, piece_flat_positions(pieces[i]).len() as int);
}

} // verus!
