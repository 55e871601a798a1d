//! Extruded footprint meshes.
//!
//! Coordinates and normal components are carried as IEEE-754
//! single-precision bit patterns: the library copies and serialises them but
//! never does arithmetic on them.

use crate::name::{mesh_name, mesh_name_of};
use vstd::prelude::*;

verus! {

/// One extruded footprint: wall vertices followed by cap vertices, one normal
/// per vertex, and triangles that index into the vertex list.
pub struct Mesh {
    /// Vertex positions, each `[x, y, z]` as single-precision bit patterns.
    pub vertex: Vec<[u32; 3]>,
    /// The name under which the mesh appears in the scene.
    pub mesh_name: String,
    /// Triangles, each three indices into `vertex`.
    pub index: Vec<[i32; 3]>,
    /// Vertex normals, parallel to `vertex`.
    pub normal: Vec<[u32; 3]>,
    /// The top elevation, as a single-precision bit pattern.
    pub height: u32,
}

impl Mesh {
    /// Every vertex has a normal and every triangle corner names a vertex.
    pub open spec fn wf(&self) -> bool {
        &&& self.normal@.len() == self.vertex@.len()
        &&& forall|t: int, k: int|
            0 <= t < self.index@.len() && 0 <= k < 3 ==> 0 <= #[trigger] self.index@[t][k]
                < self.vertex@.len()
    }
}

/// The bit pattern of `1.0`, the vertical component of a top-cap normal.
pub const UP: u32 = 0x3F80_0000;

/// The bit pattern of `-1.0`, the vertical component of a base-cap normal.
pub const DOWN: u32 = 0xBF80_0000;

/// The most ring points whose mesh has all of its vertex indices in an
/// `i32`.
pub const MAX_RING_POINTS: usize = 357_913_941;

/// Number of wall vertices of a ring of `k` points: a base and a top vertex
/// per point, and a second pair for every point but the first and the last.
pub open spec fn wall_vertex_count(k: int) -> int {
    2 * k + 2 * (k - 2)
}

/// Number of vertices of the mesh of a ring of `k` points: the wall vertices
/// and a base and a top cap vertex per point.
pub open spec fn vertex_count(k: int) -> int {
    wall_vertex_count(k) + 2 * k
}

/// The ring point above which vertex `v` stands.
pub open spec fn vertex_point(k: int, v: int) -> int {
    if v < wall_vertex_count(k) {
        (v + 2) / 4
    } else {
        (v - wall_vertex_count(k)) / 2
    }
}

/// `p` stands at the planar point `xy` with elevation `z`.
pub open spec fn is_vertex(p: [u32; 3], xy: [u32; 2], z: u32) -> bool {
    p[0] == xy[0] && p[1] == xy[1] && p[2] == z
}

/// `vertex` is the vertex list of the ring extruded from `base` to `top`:
/// even positions lie at the base, odd positions at the top.
pub open spec fn extruded_vertices(
    vertex: Seq<[u32; 3]>,
    ring: Seq<[u32; 2]>,
    base: u32,
    top: u32,
) -> bool {
    &&& vertex.len() == vertex_count(ring.len() as int)
    &&& forall|v: int|
        0 <= v < vertex.len() ==> is_vertex(
            #[trigger] vertex[v],
            ring[vertex_point(ring.len() as int, v)],
            if v % 2 == 0 {
                base
            } else {
                top
            },
        )
}

/// The normal that vertex `v` must carry: the normal of its wall segment,
/// straight down for a base-cap vertex, straight up for a top-cap vertex.
pub open spec fn is_vertex_normal(n: [u32; 3], wall_normals: Seq<[u32; 3]>, k: int, v: int) -> bool {
    if v < wall_vertex_count(k) {
        n == wall_normals[v / 4]
    } else {
        n[0] == 0 && n[1] == 0 && n[2] == if v % 2 == 0 {
            DOWN
        } else {
            UP
        }
    }
}

/// `normal` is the normal list of a ring of `k` points whose wall segments
/// have the normals `wall_normals`.
pub open spec fn extruded_normals(normal: Seq<[u32; 3]>, wall_normals: Seq<[u32; 3]>, k: int) -> bool {
    &&& normal.len() == vertex_count(k)
    &&& forall|v: int|
        0 <= v < normal.len() ==> is_vertex_normal(#[trigger] normal[v], wall_normals, k, v)
}

/// `t` has the corners `a`, `b`, `c`, in this order.
pub open spec fn is_triangle(t: [i32; 3], a: int, b: int, c: int) -> bool {
    t[0] == a && t[1] == b && t[2] == c
}

/// Triangle `j` of the wall: segment `j / 2` contributes the triangle over
/// its first base, first top and second top vertex, then the triangle over
/// its second base, first base and second top vertex.
pub open spec fn is_wall_triangle(t: [i32; 3], j: int) -> bool {
    let s = j / 2;
    if j % 2 == 0 {
        is_triangle(t, 4 * s, 4 * s + 1, 4 * s + 3)
    } else {
        is_triangle(t, 4 * s + 2, 4 * s, 4 * s + 3)
    }
}

/// Base-cap triangle `q`: the triangulation's triangle `q` over the base cap
/// vertices that begin at `start`, its second and third corner swapped.
pub open spec fn is_base_cap_triangle(t: [i32; 3], triangles: Seq<usize>, start: int, q: int) -> bool {
    is_triangle(
        t,
        start + 2 * triangles[3 * q],
        start + 2 * triangles[3 * q + 2],
        start + 2 * triangles[3 * q + 1],
    )
}

/// Top-cap triangle `q`: the triangulation's triangle `q` over the top cap
/// vertices, its corners in the triangulation's order.
pub open spec fn is_top_cap_triangle(t: [i32; 3], triangles: Seq<usize>, start: int, q: int) -> bool {
    is_triangle(
        t,
        start + 2 * triangles[3 * q] + 1,
        start + 2 * triangles[3 * q + 1] + 1,
        start + 2 * triangles[3 * q + 2] + 1,
    )
}

/// `index` is the triangle list of a ring of `k` points whose caps are
/// triangulated by `triangles`: two triangles per wall segment, then the
/// base cap, then the top cap.
pub open spec fn extruded_indices(index: Seq<[i32; 3]>, k: int, triangles: Seq<usize>) -> bool {
    let walls = 2 * (k - 1);
    let caps = triangles.len() as int / 3;
    let start = wall_vertex_count(k);
    &&& index.len() == walls + 2 * caps
    &&& forall|j: int| 0 <= j < walls ==> is_wall_triangle(#[trigger] index[j], j)
    &&& forall|j: int|
        walls <= j < walls + caps ==> is_base_cap_triangle(
            #[trigger] index[j],
            triangles,
            start,
            j - walls,
        )
    &&& forall|j: int|
        walls + caps <= j < walls + 2 * caps ==> is_top_cap_triangle(
            #[trigger] index[j],
            triangles,
            start,
            j - walls - caps,
        )
}

/// `triangles` lists whole triangles over the points of a ring of `k`
/// points.
pub open spec fn valid_triangulation(triangles: Seq<usize>, k: int) -> bool {
    &&& triangles.len() % 3 == 0
    &&& forall|i: int| 0 <= i < triangles.len() ==> #[trigger] triangles[i] < k
}

impl Mesh {
    /// The mesh is the extrusion of `ring` from `base` to `top`, with the
    /// given wall normals and cap triangulation, named after `id`.
    pub open spec fn extrudes(
        &self,
        ring: Seq<[u32; 2]>,
        base: u32,
        top: u32,
        wall_normals: Seq<[u32; 3]>,
        triangles: Seq<usize>,
        id: int,
    ) -> bool {
        &&& extruded_vertices(self.vertex@, ring, base, top)
        &&& extruded_normals(self.normal@, wall_normals, ring.len() as int)
        &&& extruded_indices(self.index@, ring.len() as int, triangles)
        &&& self.mesh_name@ == mesh_name_of(id)
        &&& self.height == top
    }
}

/// In an extruded mesh every vertex has a normal and every triangle corner
/// names a vertex: wall triangles stay among the wall vertices, cap
/// triangles among the cap vertices.
pub proof fn lemma_extrusion_wf(
    mesh: Mesh,
    ring: Seq<[u32; 2]>,
    base: u32,
    top: u32,
    wall_normals: Seq<[u32; 3]>,
    triangles: Seq<usize>,
    id: int,
)
    requires
        ring.len() >= 2,
        valid_triangulation(triangles, ring.len() as int),
        mesh.extrudes(ring, base, top, wall_normals, triangles, id),
    ensures
        mesh.wf(),
        forall|j: int, c: int|
            0 <= j < 2 * (ring.len() - 1) && 0 <= c < 3 ==> 0 <= #[trigger] mesh.index@[j][c]
                < wall_vertex_count(ring.len() as int),
        forall|j: int, c: int|
            2 * (ring.len() - 1) <= j < mesh.index@.len() && 0 <= c < 3 ==> wall_vertex_count(
                ring.len() as int,
            ) <= #[trigger] mesh.index@[j][c] < mesh.vertex@.len(),
{
    let k = ring.len() as int;
    let walls = 2 * (k - 1);
    let caps = triangles.len() as int / 3;
    assert forall|j: int, c: int| 0 <= j < walls && 0 <= c < 3 implies 0
        <= #[trigger] mesh.index@[j][c] < wall_vertex_count(k) by {
        assert(is_wall_triangle(mesh.index@[j], j));
    }
    assert forall|j: int, c: int| walls <= j < mesh.index@.len() && 0 <= c < 3 implies wall_vertex_count(
        k,
    ) <= #[trigger] mesh.index@[j][c] < mesh.vertex@.len() by {
        if j < walls + caps {
            let q = j - walls;
            assert(is_base_cap_triangle(mesh.index@[j], triangles, wall_vertex_count(k), q));
            assert(triangles[3 * q] < k && triangles[3 * q + 1] < k && triangles[3 * q + 2] < k);
        } else {
            let q = j - walls - caps;
            assert(is_top_cap_triangle(mesh.index@[j], triangles, wall_vertex_count(k), q));
            assert(triangles[3 * q] < k && triangles[3 * q + 1] < k && triangles[3 * q + 2] < k);
        }
    }
    assert forall|t: int, c: int| 0 <= t < mesh.index@.len() && 0 <= c < 3 implies 0
        <= #[trigger] mesh.index@[t][c] < mesh.vertex@.len() by {
        if t < walls {
            assert(0 <= mesh.index@[t][c] < wall_vertex_count(k));
        } else {
            assert(wall_vertex_count(k) <= mesh.index@[t][c] < mesh.vertex@.len());
        }
    }
}

/// The wall vertices of the ring: for each point a base and a top vertex,
/// twice for every point that is neither the first nor the last.
fn wall_vertices(ring: &Vec<[u32; 2]>, bottom: u32, height: u32) -> (vertex: Vec<[u32; 3]>)
    requires
        ring@.len() >= 2,
    ensures
        vertex@.len() == wall_vertex_count(ring@.len() as int),
        forall|v: int|
            0 <= v < vertex@.len() ==> is_vertex(
                #[trigger] vertex@[v],
                ring@[(v + 2) / 4],
                if v % 2 == 0 {
                    bottom
                } else {
                    height
                },
            ),
{
    let mut vertex: Vec<[u32; 3]> = Vec::new();
    let len = ring.len();
    let mut idx1: usize = 0;
    while idx1 < len
        invariant
            len == ring@.len(),
            len >= 2,
            idx1 <= len,
            vertex@.len() == if idx1 == 0 {
                0
            } else if idx1 == len {
                4 * len - 4
            } else {
                4 * idx1 - 2
            },
            forall|v: int|
                0 <= v < vertex@.len() ==> is_vertex(
                    #[trigger] vertex@[v],
                    ring@[(v + 2) / 4],
                    if v % 2 == 0 {
                        bottom
                    } else {
                        height
                    },
                ),
        decreases len - idx1,
    {
        let point = &ring[idx1];
        let px = point[0];
        let py = point[1];
        vertex.push([px, py, bottom]);
        vertex.push([px, py, height]);
        if idx1 != 0 && idx1 != len - 1 {
            vertex.push([px, py, bottom]);
            vertex.push([px, py, height]);
        }
        idx1 = idx1 + 1;
    }
    vertex
}

/// Two triangles for each pair of consecutive base vertices among
/// `vertex_num` base vertices, the pairs taken at even positions.
fn wall_indices(vertex_num: i32) -> (index: Vec<[i32; 3]>)
    requires
        0 <= vertex_num,
        vertex_num % 2 == 0,
        2 * vertex_num <= i32::MAX,
    ensures
        index@.len() == vertex_num,
        forall|j: int| 0 <= j < index@.len() ==> is_wall_triangle(#[trigger] index@[j], j),
{
    let mut index: Vec<[i32; 3]> = Vec::new();
    let mut n: i32 = 0;
    while n < vertex_num
        invariant
            0 <= n <= vertex_num,
            n % 2 == 0,
            vertex_num % 2 == 0,
            2 * vertex_num <= i32::MAX,
            index@.len() == n,
            forall|j: int| 0 <= j < index@.len() ==> is_wall_triangle(#[trigger] index@[j], j),
        decreases vertex_num - n,
    {
        index.push([2 * n, 2 * n + 1, 2 * (n + 1) + 1]);
        index.push([2 * (n + 1), 2 * n, 2 * (n + 1) + 1]);
        n = n + 2;
    }
    index
}

/// Appends the cap vertices of the ring and their normals: for each point
/// a base vertex with a normal straight down and a top vertex with a normal
/// straight up.
fn push_caps(
    vertex: &mut Vec<[u32; 3]>,
    normal: &mut Vec<[u32; 3]>,
    ring: &Vec<[u32; 2]>,
    bottom: u32,
    height: u32,
)
    requires
        old(vertex)@.len() % 2 == 0,
        old(normal)@.len() % 2 == 0,
    ensures
        final(vertex)@.len() == old(vertex)@.len() + 2 * ring@.len(),
        final(normal)@.len() == old(normal)@.len() + 2 * ring@.len(),
        final(vertex)@.subrange(0, old(vertex)@.len() as int) == old(vertex)@,
        final(normal)@.subrange(0, old(normal)@.len() as int) == old(normal)@,
        forall|c: int|
            0 <= c < 2 * ring@.len() ==> is_vertex(
                #[trigger] final(vertex)@[old(vertex)@.len() + c],
                ring@[c / 2],
                if c % 2 == 0 {
                    bottom
                } else {
                    height
                },
            ),
        forall|c: int|
            0 <= c < 2 * ring@.len() ==> {
                let n = #[trigger] final(normal)@[old(normal)@.len() + c];
                n[0] == 0 && n[1] == 0 && n[2] == if c % 2 == 0 {
                    DOWN
                } else {
                    UP
                }
            },
{
    let ghost v0 = vertex@;
    let ghost n0 = normal@;
    let len = ring.len();
    let mut idx2: usize = 0;
    while idx2 < len
        invariant
            len == ring@.len(),
            idx2 <= len,
            vertex@.len() == v0.len() + 2 * idx2,
            normal@.len() == n0.len() + 2 * idx2,
            vertex@.subrange(0, v0.len() as int) == v0,
            normal@.subrange(0, n0.len() as int) == n0,
            forall|c: int|
                0 <= c < 2 * idx2 ==> is_vertex(
                    #[trigger] vertex@[v0.len() + c],
                    ring@[c / 2],
                    if c % 2 == 0 {
                        bottom
                    } else {
                        height
                    },
                ),
            forall|c: int|
                0 <= c < 2 * idx2 ==> {
                    let n = #[trigger] normal@[n0.len() + c];
                    n[0] == 0 && n[1] == 0 && n[2] == if c % 2 == 0 {
                        DOWN
                    } else {
                        UP
                    }
                },
        decreases len - idx2,
    {
        let point = &ring[idx2];
        let px = point[0];
        let py = point[1];
        let ghost v1 = vertex@;
        let ghost n1 = normal@;
        vertex.push([px, py, bottom]);
        vertex.push([px, py, height]);
        normal.push([0, 0, DOWN]);
        normal.push([0, 0, UP]);
        proof {
            assert(vertex@.subrange(0, v0.len() as int) =~= v1.subrange(0, v0.len() as int));
            assert(normal@.subrange(0, n0.len() as int) =~= n1.subrange(0, n0.len() as int));
            assert forall|c: int| 0 <= c < 2 * (idx2 + 1) implies is_vertex(
                #[trigger] vertex@[v0.len() + c],
                ring@[c / 2],
                if c % 2 == 0 {
                    bottom
                } else {
                    height
                },
            ) by {
                if c < 2 * idx2 {
                    assert(vertex@[v0.len() + c] == v1[v0.len() + c]);
                }
            }
            assert forall|c: int| 0 <= c < 2 * (idx2 + 1) implies {
                let n = #[trigger] normal@[n0.len() + c];
                n[0] == 0 && n[1] == 0 && n[2] == if c % 2 == 0 {
                    DOWN
                } else {
                    UP
                }
            } by {
                if c < 2 * idx2 {
                    assert(normal@[n0.len() + c] == n1[n0.len() + c]);
                }
            }
        }
        idx2 = idx2 + 1;
    }
}

/// Appends the cap triangles: the base cap with the second and third corner
/// of each triangle swapped, then the top cap.
fn push_cap_indices(index: &mut Vec<[i32; 3]>, pt_count: i32, triangles: &Vec<usize>, k: usize)
    requires
        valid_triangulation(triangles@, k as int),
        0 <= pt_count,
        pt_count + 2 * k <= i32::MAX,
    ensures
        final(index)@.len() == old(index)@.len() + 2 * (triangles@.len() / 3),
        final(index)@.subrange(0, old(index)@.len() as int) == old(index)@,
        forall|q: int|
            0 <= q < triangles@.len() / 3 ==> is_base_cap_triangle(
                #[trigger] final(index)@[old(index)@.len() + q],
                triangles@,
                pt_count as int,
                q,
            ),
        forall|q: int|
            0 <= q < triangles@.len() / 3 ==> is_top_cap_triangle(
                #[trigger] final(index)@[old(index)@.len() + triangles@.len() / 3 + q],
                triangles@,
                pt_count as int,
                q,
            ),
{
    let ghost i0 = index@;
    let ghost caps = triangles@.len() as int / 3;
    let tri_len = triangles.len();
    let mut idx: usize = 0;
    while idx < tri_len
        invariant
            tri_len == triangles@.len(),
            valid_triangulation(triangles@, k as int),
            0 <= pt_count,
            pt_count + 2 * k <= i32::MAX,
            idx % 3 == 0,
            idx <= tri_len,
            index@.len() == i0.len() + idx / 3,
            index@.subrange(0, i0.len() as int) == i0,
            forall|q: int|
                0 <= q < idx / 3 ==> is_base_cap_triangle(
                    #[trigger] index@[i0.len() + q],
                    triangles@,
                    pt_count as int,
                    q,
                ),
        decreases tri_len - idx,
    {
        let ghost before = index@;
        let first = pt_count + 2 * (triangles[idx] as i32);
        let second = pt_count + 2 * (triangles[idx + 2] as i32);
        let third = pt_count + 2 * (triangles[idx + 1] as i32);
        index.push([first, second, third]);
        proof {
            assert(index@.subrange(0, i0.len() as int) =~= before.subrange(0, i0.len() as int));
            assert forall|q: int| 0 <= q < (idx + 3) / 3 implies is_base_cap_triangle(
                #[trigger] index@[i0.len() + q],
                triangles@,
                pt_count as int,
                q,
            ) by {
                if q < idx / 3 {
                    assert(index@[i0.len() + q] == before[i0.len() + q]);
                }
            }
        }
        idx = idx + 3;
    }
    let mut idx4: usize = 0;
    while idx4 < tri_len
        invariant
            tri_len == triangles@.len(),
            caps == tri_len / 3,
            valid_triangulation(triangles@, k as int),
            0 <= pt_count,
            pt_count + 2 * k <= i32::MAX,
            idx4 % 3 == 0,
            idx4 <= tri_len,
            index@.len() == i0.len() + caps + idx4 / 3,
            index@.subrange(0, i0.len() as int) == i0,
            forall|q: int|
                0 <= q < caps ==> is_base_cap_triangle(
                    #[trigger] index@[i0.len() + q],
                    triangles@,
                    pt_count as int,
                    q,
                ),
            forall|q: int|
                0 <= q < idx4 / 3 ==> is_top_cap_triangle(
                    #[trigger] index@[i0.len() + caps + q],
                    triangles@,
                    pt_count as int,
                    q,
                ),
        decreases tri_len - idx4,
    {
        let ghost before = index@;
        let first = pt_count + 2 * (triangles[idx4] as i32) + 1;
        let second = pt_count + 2 * (triangles[idx4 + 1] as i32) + 1;
        let third = pt_count + 2 * (triangles[idx4 + 2] as i32) + 1;
        index.push([first, second, third]);
        proof {
            assert(index@.subrange(0, i0.len() as int) =~= before.subrange(0, i0.len() as int));
            assert forall|q: int| 0 <= q < caps implies is_base_cap_triangle(
                #[trigger] index@[i0.len() + q],
                triangles@,
                pt_count as int,
                q,
            ) by {
                assert(index@[i0.len() + q] == before[i0.len() + q]);
            }
            assert forall|q: int| 0 <= q < (idx4 + 3) / 3 implies is_top_cap_triangle(
                #[trigger] index@[i0.len() + caps + q],
                triangles@,
                pt_count as int,
                q,
            ) by {
                if q < idx4 / 3 {
                    assert(index@[i0.len() + caps + q] == before[i0.len() + caps + q]);
                }
            }
        }
        idx4 = idx4 + 3;
    }
}

impl Mesh {
    /// Extrudes `ring` from `bottom` to `height` into a mesh: the wall with
    /// the given segment normals, then the two caps triangulated by
    /// `triangles`.
    pub fn init(
        height: u32,
        bottom: u32,
        ring: &Vec<[u32; 2]>,
        wall_normals: &Vec<[u32; 3]>,
        triangles: &Vec<usize>,
        id: i32,
    ) -> (mesh: Mesh)
        requires
            ring@.len() >= 2,
            vertex_count(ring@.len() as int) <= i32::MAX,
            wall_normals@.len() == ring@.len() - 1,
            valid_triangulation(triangles@, ring@.len() as int),
        ensures
            mesh.extrudes(ring@, bottom, height, wall_normals@, triangles@, id as int),
            mesh.wf(),
    {
        let ghost k = ring@.len() as int;
        let mesh_name = mesh_name(id);
        let mut vertex = wall_vertices(ring, bottom, height);
        let ghost walls = vertex@;
        let vertex_num: i32 = (vertex.len() / 2) as i32;
        let mut index = wall_indices(vertex_num);
        let ghost wall_index = index@;
        let mut normal = Self::calc_normal(wall_normals);
        let ghost wall_normal = normal@;
        let pt_count: i32 = 2 * vertex_num;
        push_caps(&mut vertex, &mut normal, ring, bottom, height);
        push_cap_indices(&mut index, pt_count, triangles, ring.len());
        proof {
            let caps = triangles@.len() as int / 3;
            assert forall|v: int| 0 <= v < vertex@.len() implies is_vertex(
                #[trigger] vertex@[v],
                ring@[vertex_point(k, v)],
                if v % 2 == 0 {
                    bottom
                } else {
                    height
                },
            ) by {
                if v < walls.len() {
                    assert(vertex@[v] == vertex@.subrange(0, walls.len() as int)[v]);
                } else {
                    let c = v - walls.len();
                    assert(vertex@[v] == vertex@[walls.len() + c]);
                }
            }
            assert forall|v: int| 0 <= v < normal@.len() implies is_vertex_normal(
                #[trigger] normal@[v],
                wall_normals@,
                k,
                v,
            ) by {
                if v < wall_normal.len() {
                    assert(normal@[v] == normal@.subrange(0, wall_normal.len() as int)[v]);
                } else {
                    let c = v - wall_normal.len();
                    assert(normal@[v] == normal@[wall_normal.len() + c]);
                }
            }
            assert forall|j: int| 0 <= j < 2 * (k - 1) implies is_wall_triangle(
                #[trigger] index@[j],
                j,
            ) by {
                assert(index@[j] == index@.subrange(0, wall_index.len() as int)[j]);
            }
            assert forall|j: int| 2 * (k - 1) <= j < 2 * (k - 1) + caps implies is_base_cap_triangle(
                #[trigger] index@[j],
                triangles@,
                wall_vertex_count(k),
                j - 2 * (k - 1),
            ) by {
                let q = j - 2 * (k - 1);
                assert(index@[j] == index@[wall_index.len() + q]);
            }
            assert forall|j: int|
                2 * (k - 1) + caps <= j < 2 * (k - 1) + 2 * caps implies is_top_cap_triangle(
                #[trigger] index@[j],
                triangles@,
                wall_vertex_count(k),
                j - 2 * (k - 1) - caps,
            ) by {
                let q = j - 2 * (k - 1) - caps;
                assert(index@[j] == index@[wall_index.len() + triangles@.len() / 3 + q]);
            }
        }
        let mesh = Mesh { vertex, mesh_name, index, normal, height };
        proof {
            lemma_extrusion_wf(mesh, ring@, bottom, height, wall_normals@, triangles@, id as int);
        }
        mesh
    }

    /// Extrudes `ring` as `init` does where the inputs fit together: at
    /// least two ring points, few enough for 32-bit indices, one normal per
    /// wall segment, and whole cap triangles over the ring's points.
    /// Otherwise there is no mesh.
    pub fn try_init(
        height: u32,
        bottom: u32,
        ring: &Vec<[u32; 2]>,
        wall_normals: &Vec<[u32; 3]>,
        triangles: &Vec<usize>,
        id: i32,
    ) -> (r: Option<Mesh>)
        ensures
            r is Some <==> {
                &&& ring@.len() >= 2
                &&& vertex_count(ring@.len() as int) <= i32::MAX
                &&& wall_normals@.len() == ring@.len() - 1
                &&& valid_triangulation(triangles@, ring@.len() as int)
            },
            r matches Some(mesh) ==> mesh.extrudes(
                ring@,
                bottom,
                height,
                wall_normals@,
                triangles@,
                id as int,
            ) && mesh.wf(),
    {
        let k = ring.len();
        if k < 2 || k > MAX_RING_POINTS || wall_normals.len() != k - 1 || triangles.len() % 3 != 0 {
            return None;
        }
        let mut i: usize = 0;
        while i < triangles.len()
            invariant
                i <= triangles@.len(),
                k == ring@.len(),
                forall|j: int| 0 <= j < i ==> #[trigger] triangles@[j] < k,
            decreases triangles@.len() - i,
        {
            if triangles[i] >= k {
                return None;
            }
            i = i + 1;
        }
        Some(Self::init(height, bottom, ring, wall_normals, triangles, id))
    }

    /// The mesh is `first` followed by `second`: the vertices and normals of
    /// both, and the triangles of both, those of `second` pointing at its
    /// vertices where they now stand.  Name and height are those of `first`.
    pub open spec fn joins(&self, first: Mesh, second: Mesh) -> bool {
        &&& self.vertex@ == first.vertex@ + second.vertex@
        &&& self.normal@ == first.normal@ + second.normal@
        &&& self.index@.len() == first.index@.len() + second.index@.len()
        &&& forall|j: int| 0 <= j < first.index@.len() ==> #[trigger] self.index@[j] == first.index@[j]
        &&& forall|j: int|
            first.index@.len() <= j < self.index@.len() ==> is_triangle(
                #[trigger] self.index@[j],
                second.index@[j - first.index@.len()][0] + first.vertex@.len(),
                second.index@[j - first.index@.len()][1] + first.vertex@.len(),
                second.index@[j - first.index@.len()][2] + first.vertex@.len(),
            )
        &&& self.mesh_name@ == first.mesh_name@
        &&& self.height == first.height
    }

    /// Whether every vertex has a normal and every triangle corner names a
    /// vertex.
    pub fn is_wf(&self) -> (ok: bool)
        ensures
            ok == self.wf(),
    {
        if self.normal.len() != self.vertex.len() {
            return false;
        }
        let count = self.vertex.len();
        let mut t: usize = 0;
        while t < self.index.len()
            invariant
                t <= self.index@.len(),
                count == self.vertex@.len(),
                self.normal@.len() == self.vertex@.len(),
                forall|u: int, k: int|
                    0 <= u < t && 0 <= k < 3 ==> 0 <= #[trigger] self.index@[u][k] < count,
            decreases self.index@.len() - t,
        {
            let tri = &self.index[t];
            let mut k: usize = 0;
            while k < 3
                invariant
                    k <= 3,
                    t < self.index@.len(),
                    count == self.vertex@.len(),
                    tri == self.index@[t as int],
                    forall|j: int| 0 <= j < k ==> 0 <= #[trigger] tri[j] < count,
                decreases 3 - k,
            {
                if tri[k] < 0 || tri[k] as usize >= count {
                    assert(!(0 <= self.index@[t as int][k as int] < count));
                    return false;
                }
                k += 1;
            }
            t += 1;
        }
        true
    }

    /// Adds the vertices, normals and triangles of `other` to the mesh, the
    /// triangles shifted to where the vertices of `other` now stand.
    pub fn append(&mut self, other: &Mesh)
        requires
            other.wf(),
            old(self).vertex@.len() + other.vertex@.len() <= i32::MAX,
        ensures
            final(self).joins(*old(self), *other),
            old(self).wf() ==> final(self).wf(),
    {
        let ghost first = *self;
        let shift: i32 = self.vertex.len() as i32;
        let mut v: usize = 0;
        while v < other.vertex.len()
            invariant
                v <= other.vertex@.len(),
                self.vertex@ == first.vertex@ + other.vertex@.take(v as int),
                self.normal@ == first.normal@,
                self.index@ == first.index@,
                self.mesh_name == first.mesh_name,
                self.height == first.height,
            decreases other.vertex@.len() - v,
        {
            self.vertex.push(other.vertex[v]);
            assert(self.vertex@ =~= first.vertex@ + other.vertex@.take(v + 1));
            v += 1;
        }
        assert(other.vertex@.take(v as int) =~= other.vertex@);
        let mut n: usize = 0;
        while n < other.normal.len()
            invariant
                n <= other.normal@.len(),
                self.vertex@ == first.vertex@ + other.vertex@,
                self.normal@ == first.normal@ + other.normal@.take(n as int),
                self.index@ == first.index@,
                self.mesh_name == first.mesh_name,
                self.height == first.height,
            decreases other.normal@.len() - n,
        {
            self.normal.push(other.normal[n]);
            assert(self.normal@ =~= first.normal@ + other.normal@.take(n + 1));
            n += 1;
        }
        assert(other.normal@.take(n as int) =~= other.normal@);
        let mut t: usize = 0;
        while t < other.index.len()
            invariant
                t <= other.index@.len(),
                other.wf(),
                shift == first.vertex@.len(),
                first.vertex@.len() + other.vertex@.len() <= i32::MAX,
                self.vertex@ == first.vertex@ + other.vertex@,
                self.normal@ == first.normal@ + other.normal@,
                self.index@.len() == first.index@.len() + t,
                forall|j: int| 0 <= j < first.index@.len() ==> #[trigger] self.index@[j] == first.index@[j],
                forall|j: int|
                    first.index@.len() <= j < self.index@.len() ==> is_triangle(
                        #[trigger] self.index@[j],
                        other.index@[j - first.index@.len()][0] + first.vertex@.len(),
                        other.index@[j - first.index@.len()][1] + first.vertex@.len(),
                        other.index@[j - first.index@.len()][2] + first.vertex@.len(),
                    ),
                self.mesh_name == first.mesh_name,
                self.height == first.height,
            decreases other.index@.len() - t,
        {
            let tri = &other.index[t];
            assert(0 <= other.index@[t as int][0] < other.vertex@.len());
            assert(0 <= other.index@[t as int][1] < other.vertex@.len());
            assert(0 <= other.index@[t as int][2] < other.vertex@.len());
            self.index.push([tri[0] + shift, tri[1] + shift, tri[2] + shift]);
            t += 1;
        }
        proof {
            if first.wf() {
                assert forall|u: int, k: int| 0 <= u < self.index@.len() && 0 <= k < 3 implies 0
                    <= #[trigger] self.index@[u][k] < self.vertex@.len() by {
                    if u < first.index@.len() {
                        assert(self.index@[u] == first.index@[u]);
                        assert(0 <= first.index@[u][k] < first.vertex@.len());
                    } else {
                        let w = u - first.index@.len();
                        assert(0 <= other.index@[w][k] < other.vertex@.len());
                    }
                }
            }
        }
    }

    /// Adds `other` as `append` does where `other` is well formed and the
    /// joined mesh keeps its vertex indices in an `i32`, and says so;
    /// otherwise the mesh stays as it is.
    pub fn try_append(&mut self, other: &Mesh) -> (done: bool)
        ensures
            done <==> other.wf() && old(self).vertex@.len() + other.vertex@.len() <= i32::MAX,
            done ==> final(self).joins(*old(self), *other),
            done && old(self).wf() ==> final(self).wf(),
            !done ==> *final(self) == *old(self),
    {
        if !other.is_wf() {
            return false;
        }
        let room: usize = 0x7FFF_FFFF;
        if self.vertex.len() > room || other.vertex.len() > room - self.vertex.len() {
            return false;
        }
        self.append(other);
        true
    }

    /// One normal per wall vertex: each segment's normal on the four
    /// vertices of that segment.
    pub fn calc_normal(wall_normals: &Vec<[u32; 3]>) -> (normal: Vec<[u32; 3]>)
        ensures
            normal@.len() == 4 * wall_normals@.len(),
            forall|v: int| 0 <= v < normal@.len() ==> #[trigger] normal@[v] == wall_normals@[v / 4],
    {
        let mut normal: Vec<[u32; 3]> = Vec::new();
        let mut i: usize = 0;
        while i < wall_normals.len()
            invariant
                i <= wall_normals@.len(),
                normal@.len() == 4 * i,
                forall|v: int|
                    0 <= v < normal@.len() ==> #[trigger] normal@[v] == wall_normals@[v / 4],
            decreases wall_normals@.len() - i,
        {
            let nor4 = wall_normals[i];
            normal.push(nor4);
            normal.push(nor4);
            normal.push(nor4);
            normal.push(nor4);
            i = i + 1;
        }
        normal
    }
}

} // verus!
