//! Triangle meshes as the UI toolkit hands them over, and splitting large
//! meshes so every part can be indexed with the host's 16-bit index type.
//!
//! A vertex is held in the host's 5-word textured layout: position and UV as
//! 32-bit float bit patterns (produced at the unverified edge, opaque here)
//! and a packed RGBA color. The split walks the triangles in order, keeps a
//! running span of referenced vertex indices, and starts a new sub-mesh
//! whenever extending the span would no longer fit 16-bit indexing. Each
//! sub-mesh carries a contiguous slice of the original vertices and its
//! indices rebased to that slice, so the original triangles are preserved
//! exactly, by vertex identity.

use vstd::prelude::*;

verus! {

/// One textured vertex in the host's 5-word layout: `pos` and `texture` hold
/// 32-bit float bit patterns, `color` a packed RGBA byte quadruple.
#[derive(Clone, Copy, Debug)]
pub struct ColoredVertex {
    pub pos: [u32; 2],
    pub texture: [u32; 2],
    pub color: u32,
}

/// The five words of a vertex, in the order the host reads them from the
/// vertex arena.
pub open spec fn vertex_words(v: ColoredVertex) -> Seq<u32> {
    seq![v.pos[0], v.pos[1], v.texture[0], v.texture[1], v.color]
}

/// A triangle mesh: a texture id, vertices, and indices in whole triangles.
pub struct Mesh {
    /// Texture id the mesh is drawn with, resolved through the cache.
    pub texture_id: u64,
    pub vertices: Vec<ColoredVertex>,
    pub indices: Vec<u32>,
}

/// A part of a split mesh: a contiguous run of the original vertices starting
/// at `vertex_base`, with indices rebased to it.
pub struct SubMesh {
    /// Where this part's vertices start inside the original mesh's list.
    pub vertex_base: usize,
    pub vertices: Vec<ColoredVertex>,
    pub indices: Vec<u32>,
}

impl Mesh {
    /// Indices come in whole triangles and stay inside the vertex list.
    pub open spec fn wf(self) -> bool {
        &&& self.indices.len() % 3 == 0
        &&& forall|i: int|
            0 <= i < self.indices.len() ==> (#[trigger] self.indices@[i]) < self.vertices.len()
    }

    /// Smallest vertex index of triangle `t`.
    pub open spec fn tri_lo(self, t: int) -> int {
        let a = self.indices@[3 * t] as int;
        let b = self.indices@[3 * t + 1] as int;
        let c = self.indices@[3 * t + 2] as int;
        if a <= b && a <= c {
            a
        } else if b <= c {
            b
        } else {
            c
        }
    }

    /// Largest vertex index of triangle `t`.
    pub open spec fn tri_hi(self, t: int) -> int {
        let a = self.indices@[3 * t] as int;
        let b = self.indices@[3 * t + 1] as int;
        let c = self.indices@[3 * t + 2] as int;
        if a >= b && a >= c {
            a
        } else if b >= c {
            b
        } else {
            c
        }
    }

    /// Every single triangle's own index span fits 16-bit indexing once
    /// rebased; a triangle wider than that cannot be split at all.
    pub open spec fn splittable(self) -> bool {
        forall|t: int|
            0 <= t < self.indices.len() / 3 ==> #[trigger] self.tri_hi(t) - self.tri_lo(t)
                <= 0xfffe
    }
}

impl SubMesh {
    /// The part stands on its own: whole triangles, indices inside its own
    /// vertex run, and few enough vertices for a 16-bit index type.
    pub open spec fn wf(self) -> bool {
        &&& self.indices.len() % 3 == 0
        &&& forall|i: int|
            0 <= i < self.indices.len() ==> (#[trigger] self.indices@[i]) < self.vertices.len()
        &&& self.vertices.len() < 0x10000
    }
}

/// All the indices of `subs` in order, each rebased back by its sub-mesh's
/// `vertex_base`: the original triangles these parts stand for.
pub open spec fn remapped_indices(subs: Seq<SubMesh>) -> Seq<int>
    decreases subs.len(),
{
    if subs.len() == 0 {
        Seq::empty()
    } else {
        remapped_indices(subs.drop_last()) + subs.last().indices@.map_values(
            |i: u32| i as int + subs.last().vertex_base as int,
        )
    }
}

/// The spans the greedy split walk yields for the triangles from `t` on,
/// with the walk currently covering triangles `[start, t)` over the vertex
/// span `[lo, hi]`. Each element is (first triangle, one-past-last triangle,
/// lowest vertex index, highest vertex index) of one sub-mesh.
pub open spec fn split_walk(m: Mesh, t: int, start: int, lo: int, hi: int) -> Seq<
    (int, int, int, int),
>
    decreases m.indices.len() / 3 - t,
{
    let tc = m.indices.len() as int / 3;
    if t < 0 || t >= tc {
        seq![(start, tc, lo, hi)]
    } else {
        let nlo = if m.tri_lo(t) < lo {
            m.tri_lo(t)
        } else {
            lo
        };
        let nhi = if m.tri_hi(t) > hi {
            m.tri_hi(t)
        } else {
            hi
        };
        if nhi - nlo <= 0xfffe {
            split_walk(m, t + 1, start, nlo, nhi)
        } else {
            seq![(start, t, lo, hi)] + split_walk(m, t + 1, t, m.tri_lo(t), m.tri_hi(t))
        }
    }
}

/// The spans `split_to_u16` cuts the mesh into; none for an empty mesh.
pub open spec fn split_spans(m: Mesh) -> Seq<(int, int, int, int)> {
    if m.indices.len() == 0 {
        Seq::empty()
    } else {
        split_walk(m, 1, 0, m.tri_lo(0), m.tri_hi(0))
    }
}

/// A span is well-shaped: at least one triangle, a nonempty vertex range, and
/// a range narrow enough for 16-bit indexing.
pub open spec fn span_ok(m: Mesh, e: (int, int, int, int)) -> bool {
    &&& 0 <= e.0 < e.1 <= m.indices.len() / 3
    &&& 0 <= e.2 <= e.3
    &&& e.3 - e.2 <= 0xfffe
}

/// Every span the walk yields is well-shaped.
pub proof fn lemma_split_walk_spans_ok(m: Mesh, t: int, start: int, lo: int, hi: int)
    requires
        m.wf(),
        m.splittable(),
        0 <= start < t <= m.indices.len() / 3,
        0 <= lo <= hi,
        hi - lo <= 0xfffe,
    ensures
        forall|s: int|
            0 <= s < split_walk(m, t, start, lo, hi).len() ==> span_ok(
                m,
                #[trigger] split_walk(m, t, start, lo, hi)[s],
            ),
    decreases m.indices.len() / 3 - t,
{
    let tc = m.indices.len() as int / 3;
    if t >= tc {
    } else {
        let nlo = if m.tri_lo(t) < lo {
            m.tri_lo(t)
        } else {
            lo
        };
        let nhi = if m.tri_hi(t) > hi {
            m.tri_hi(t)
        } else {
            hi
        };
        if nhi - nlo <= 0xfffe {
            lemma_split_walk_spans_ok(m, t + 1, start, nlo, nhi);
            assert(split_walk(m, t, start, lo, hi) == split_walk(m, t + 1, start, nlo, nhi));
        } else {
            assert(m.tri_hi(t) - m.tri_lo(t) <= 0xfffe);
            assert(m.tri_lo(t) <= m.tri_hi(t));
            assert(m.tri_lo(t) >= 0);
            lemma_split_walk_spans_ok(m, t + 1, t, m.tri_lo(t), m.tri_hi(t));
            let rest = split_walk(m, t + 1, t, m.tri_lo(t), m.tri_hi(t));
            let whole = split_walk(m, t, start, lo, hi);
            assert(whole == seq![(start, t, lo, hi)] + rest);
            assert(span_ok(m, (start, t, lo, hi)));
            assert forall|s: int| 0 <= s < whole.len() implies span_ok(
                m,
                #[trigger] whole[s],
            ) by {
                if s == 0 {
                    assert(whole[0] == (start, t, lo, hi));
                } else {
                    assert(whole[s] == rest[s - 1]);
                }
            }
        }
    }
}

/// Every span of a splittable mesh's split is well-shaped.
pub proof fn lemma_split_spans_ok(m: Mesh)
    requires
        m.wf(),
        m.splittable(),
    ensures
        forall|s: int|
            0 <= s < split_spans(m).len() ==> span_ok(m, #[trigger] split_spans(m)[s]),
{
    if m.indices.len() != 0 {
        assert(m.indices.len() / 3 >= 1);
        assert(m.tri_hi(0) - m.tri_lo(0) <= 0xfffe);
        assert(m.tri_lo(0) <= m.tri_hi(0));
        assert(m.tri_lo(0) >= 0);
        lemma_split_walk_spans_ok(m, 1, 0, m.tri_lo(0), m.tri_hi(0));
    }
}

proof fn lemma_remapped_push(subs: Seq<SubMesh>, s: SubMesh)
    ensures
        remapped_indices(subs.push(s)) == remapped_indices(subs) + s.indices@.map_values(
            |i: u32| i as int + s.vertex_base as int,
        ),
{
    assert(subs.push(s).drop_last() =~= subs);
    assert(subs.push(s).last() == s);
}

/// Copies triangles `[start_tri, end_tri)` of `mesh`, whose indices all lie
/// in `[lo, hi]`, into one sub-mesh holding the vertex run `[lo, hi]` with
/// indices rebased by `lo`.
#[verifier::loop_isolation(false)]
fn flush_span(mesh: &Mesh, start_tri: usize, end_tri: usize, lo: u32, hi: u32) -> (r: SubMesh)
    requires
        mesh.wf(),
        start_tri < end_tri,
        3 * end_tri <= mesh.indices.len(),
        lo <= hi,
        hi < mesh.vertices.len(),
        hi - lo <= 0xfffe,
        forall|k: int|
            3 * start_tri <= k < 3 * end_tri ==> lo <= (#[trigger] mesh.indices@[k]) <= hi,
    ensures
        r.wf(),
        r.vertex_base == lo,
        r.vertex_base + r.vertices.len() <= mesh.vertices.len(),
        r.vertices@ == mesh.vertices@.subrange(lo as int, hi as int + 1),
        r.indices@.len() == 3 * (end_tri - start_tri),
        forall|j: int|
            0 <= j < r.indices@.len() ==> (#[trigger] r.indices@[j]) == mesh.indices@[3
                * start_tri + j] - lo,
{
    let mut vertices: Vec<ColoredVertex> = Vec::new();
    let mut vi: usize = lo as usize;
    while vi <= hi as usize
        invariant
            lo as usize <= vi <= hi as usize + 1,
            vertices@ == mesh.vertices@.subrange(lo as int, vi as int),
        decreases hi as usize + 1 - vi,
    {
        vertices.push(mesh.vertices[vi]);
        proof {
            assert(vertices@ =~= mesh.vertices@.subrange(lo as int, vi as int + 1));
        }
        vi = vi + 1;
    }
    let mut indices: Vec<u32> = Vec::new();
    let mut k: usize = 3 * start_tri;
    while k < 3 * end_tri
        invariant
            3 * start_tri <= k <= 3 * end_tri,
            indices@.len() == k - 3 * start_tri,
            forall|j: int|
                0 <= j < indices@.len() ==> (#[trigger] indices@[j]) == mesh.indices@[3
                    * start_tri + j] - lo,
        decreases 3 * end_tri - k,
    {
        indices.push(mesh.indices[k] - lo);
        k = k + 1;
    }
    SubMesh { vertex_base: lo as usize, vertices, indices }
}

impl Mesh {
    /// Splits the mesh into parts small enough for 16-bit indexing: every
    /// part has fewer than 65536 vertices, each part's vertices are a
    /// contiguous run of the original list, and the parts' rebased indices,
    /// concatenated in order, are exactly the original index list — the
    /// original triangles, by vertex identity, with nothing lost, added or
    /// reordered.
    #[verifier::loop_isolation(false)]
    pub fn split_to_u16(&self) -> (subs: Vec<SubMesh>)
        requires
            self.wf(),
            self.splittable(),
        ensures
            forall|s: int| 0 <= s < subs.len() ==> (#[trigger] subs@[s]).wf(),
            forall|s: int|
                0 <= s < subs.len() ==> (#[trigger] subs@[s]).vertex_base
                    + subs@[s].vertices.len() <= self.vertices.len(),
            forall|s: int|
                0 <= s < subs.len() ==> (#[trigger] subs@[s]).vertices@
                    == self.vertices@.subrange(
                    subs@[s].vertex_base as int,
                    subs@[s].vertex_base + subs@[s].vertices.len(),
                ),
            remapped_indices(subs@) == self.indices@.map_values(|i: u32| i as int),
            subs@.len() == split_spans(*self).len(),
            forall|s: int|
                0 <= s < subs.len() ==> {
                    let e = split_spans(*self)[s];
                    &&& (#[trigger] subs@[s]).vertex_base == e.2
                    &&& subs@[s].vertices.len() == e.3 - e.2 + 1
                    &&& subs@[s].indices.len() == 3 * (e.1 - e.0)
                    &&& forall|j: int|
                        0 <= j < subs@[s].indices.len() ==> (#[trigger] subs@[s].indices@[j])
                            == self.indices@[3 * e.0 + j] - e.2
                },
    {
        let mut subs: Vec<SubMesh> = Vec::new();
        let tri_count = self.indices.len() / 3;
        proof {
            assert(3 * tri_count == self.indices.len());
        }
        if tri_count == 0 {
            proof {
                assert(remapped_indices(subs@) =~= self.indices@.map_values(
                    |i: u32| i as int,
                ));
                assert(self.indices@.len() == 0);
            }
            return subs;
        }
        let mut start_tri: usize = 0;
        let i0 = self.indices[0];
        let i1 = self.indices[1];
        let i2 = self.indices[2];
        let mut lo: u32 = if i0 <= i1 && i0 <= i2 {
            i0
        } else if i1 <= i2 {
            i1
        } else {
            i2
        };
        let mut hi: u32 = if i0 >= i1 && i0 >= i2 {
            i0
        } else if i1 >= i2 {
            i1
        } else {
            i2
        };
        proof {
            assert(self.tri_lo(0) == lo && self.tri_hi(0) == hi);
            assert(self.tri_hi(0) - self.tri_lo(0) <= 0xfffe);
        }
        let ghost mut done: Seq<(int, int, int, int)> = Seq::empty();
        proof {
            assert(split_spans(*self) =~= done + split_walk(
                *self,
                1,
                0,
                lo as int,
                hi as int,
            ));
        }
        let mut t: usize = 1;
        while t < tri_count
            invariant
                start_tri < t <= tri_count,
                lo <= hi,
                hi < self.vertices.len(),
                hi - lo <= 0xfffe,
                forall|k: int|
                    3 * start_tri <= k < 3 * t ==> lo <= (#[trigger] self.indices@[k]) <= hi,
                forall|s: int| 0 <= s < subs.len() ==> (#[trigger] subs@[s]).wf(),
                forall|s: int|
                    0 <= s < subs.len() ==> (#[trigger] subs@[s]).vertex_base
                        + subs@[s].vertices.len() <= self.vertices.len(),
                forall|s: int|
                    0 <= s < subs.len() ==> (#[trigger] subs@[s]).vertices@
                        == self.vertices@.subrange(
                        subs@[s].vertex_base as int,
                        subs@[s].vertex_base + subs@[s].vertices.len(),
                    ),
                remapped_indices(subs@) == self.indices@.subrange(
                    0,
                    3 * start_tri as int,
                ).map_values(|i: u32| i as int),
                split_spans(*self) == done + split_walk(
                    *self,
                    t as int,
                    start_tri as int,
                    lo as int,
                    hi as int,
                ),
                subs@.len() == done.len(),
                forall|s: int|
                    0 <= s < subs.len() ==> {
                        let e = done[s];
                        &&& (#[trigger] subs@[s]).vertex_base == e.2
                        &&& subs@[s].vertices.len() == e.3 - e.2 + 1
                        &&& subs@[s].indices.len() == 3 * (e.1 - e.0)
                        &&& forall|j: int|
                            0 <= j < subs@[s].indices.len() ==> (
                            #[trigger] subs@[s].indices@[j]) == self.indices@[3 * e.0 + j]
                                - e.2
                    },
            decreases tri_count - t,
        {
            let j0 = self.indices[3 * t];
            let j1 = self.indices[3 * t + 1];
            let j2 = self.indices[3 * t + 2];
            let tmin: u32 = if j0 <= j1 && j0 <= j2 {
                j0
            } else if j1 <= j2 {
                j1
            } else {
                j2
            };
            let tmax: u32 = if j0 >= j1 && j0 >= j2 {
                j0
            } else if j1 >= j2 {
                j1
            } else {
                j2
            };
            proof {
                assert(self.tri_lo(t as int) == tmin && self.tri_hi(t as int) == tmax);
                assert(self.tri_hi(t as int) - self.tri_lo(t as int) <= 0xfffe);
            }
            let new_lo: u32 = if tmin < lo {
                tmin
            } else {
                lo
            };
            let new_hi: u32 = if tmax > hi {
                tmax
            } else {
                hi
            };
            if new_hi - new_lo <= 0xfffe {
                lo = new_lo;
                hi = new_hi;
            } else {
                let ghost pre_subs = subs@;
                let ghost pre_done = done;
                let sub = flush_span(self, start_tri, t, lo, hi);
                subs.push(sub);
                proof {
                    lemma_remapped_push(pre_subs, sub);
                    assert(remapped_indices(subs@) =~= self.indices@.subrange(
                        0,
                        3 * t as int,
                    ).map_values(|i: u32| i as int));
                    done = pre_done.push(
                        (start_tri as int, t as int, lo as int, hi as int),
                    );
                    assert(pre_done + (seq![(start_tri as int, t as int, lo as int, hi as int)]
                        + split_walk(
                        *self,
                        t as int + 1,
                        t as int,
                        self.tri_lo(t as int),
                        self.tri_hi(t as int),
                    )) =~= done + split_walk(
                        *self,
                        t as int + 1,
                        t as int,
                        self.tri_lo(t as int),
                        self.tri_hi(t as int),
                    ));
                }
                start_tri = t;
                lo = tmin;
                hi = tmax;
            }
            t = t + 1;
        }
        let ghost pre_subs = subs@;
        let ghost pre_done = done;
        let sub = flush_span(self, start_tri, tri_count, lo, hi);
        subs.push(sub);
        proof {
            lemma_remapped_push(pre_subs, sub);
            assert(remapped_indices(subs@) =~= self.indices@.subrange(
                0,
                3 * tri_count as int,
            ).map_values(|i: u32| i as int));
            assert(self.indices@.subrange(0, 3 * tri_count as int) =~= self.indices@);
            done = pre_done.push(
                (start_tri as int, tri_count as int, lo as int, hi as int),
            );
            assert(split_walk(
                *self,
                tri_count as int,
                start_tri as int,
                lo as int,
                hi as int,
            ) =~= seq![(start_tri as int, tri_count as int, lo as int, hi as int)]);
            assert(pre_done + seq![(start_tri as int, tri_count as int, lo as int, hi as int)]
                =~= done);
            assert(split_spans(*self) =~= done);
        }
        subs
    }
}

} // verus!
