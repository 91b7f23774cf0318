//! Indexed meshes, and the face lines of a mesh file.

use vstd::prelude::*;
use crate::color::Color;
use crate::vector::{Vec2, Vec3};
use crate::vertex::Vertex;

verus! {

/// A mesh as a mesh file gives it: attribute lists and a list of indices
/// into them, three per triangle. The lists of normals and of texture
/// coordinates may be empty.
pub struct Obj {
    pub vertices: Vec<Vec3>,
    pub normals: Vec<Vec3>,
    pub texcoords: Vec<Vec2>,
    pub indices: Vec<u32>,
}

impl Obj {
    /// Whether index `i` has a position, and a normal and a texture
    /// coordinate where the mesh has any.
    pub open spec fn index_ok(&self, i: int) -> bool {
        &&& i < self.vertices.len()
        &&& self.normals.len() == 0 || i < self.normals.len()
        &&& self.texcoords.len() == 0 || i < self.texcoords.len()
    }

    /// Whether every index of the mesh can be resolved.
    pub open spec fn indices_ok(&self) -> bool {
        forall|k: int|
            0 <= k < self.indices.len() ==> self.index_ok(#[trigger] self.indices[k] as int)
    }

    /// The vertex that index `i` stands for. A missing normal or texture
    /// coordinate is the zero vector.
    pub open spec fn vertex_spec(&self, i: int) -> Vertex {
        let normal = if self.normals.len() == 0 {
            Vec3 { x: 0, y: 0, z: 0 }
        } else {
            self.normals[i]
        };
        Vertex {
            position: self.vertices[i],
            normal,
            tex_coords: if self.texcoords.len() == 0 {
                Vec2 { x: 0, y: 0 }
            } else {
                self.texcoords[i]
            },
            color: Color { r: 0, g: 0, b: 0 },
            transformed_position: self.vertices[i],
            transformed_normal: normal,
        }
    }

    pub fn new(vertices: Vec<Vec3>, normals: Vec<Vec3>, texcoords: Vec<Vec2>, indices: Vec<u32>) -> (obj:
        Obj)
        ensures
            obj.vertices == vertices,
            obj.normals == normals,
            obj.texcoords == texcoords,
            obj.indices == indices,
    {
        Obj { vertices, normals, texcoords, indices }
    }

    /// Resolves the indices into a flat vertex array, one vertex per index.
    /// A mesh with an index that cannot be resolved is rejected as a whole.
    pub fn build_vertex_array(&self) -> (vertex_array: Option<Vec<Vertex>>)
        ensures
            vertex_array.is_some() <==> self.indices_ok(),
            vertex_array matches Some(v) ==> {
                &&& v.len() == self.indices.len()
                &&& forall|k: int|
                    0 <= k < v.len() ==> v[k] == self.vertex_spec(self.indices[k] as int)
            },
    {
        let mut vertex_array: Vec<Vertex> = Vec::new();
        let mut k: usize = 0;
        while k < self.indices.len()
            invariant
                k <= self.indices.len(),
                vertex_array.len() == k,
                forall|j: int| 0 <= j < k ==> self.index_ok(#[trigger] self.indices[j] as int),
                forall|j: int|
                    0 <= j < k ==> vertex_array[j] == self.vertex_spec(self.indices[j] as int),
            decreases self.indices.len() - k,
        {
            let index: usize = self.indices[k] as usize;
            if index >= self.vertices.len() || (self.normals.len() > 0 && index
                >= self.normals.len()) || (self.texcoords.len() > 0 && index
                >= self.texcoords.len()) {
                assert(!self.index_ok(self.indices[k as int] as int));
                return None;
            }
            let position: Vec3 = self.vertices[index];
            let normal: Vec3 = if self.normals.len() > 0 {
                self.normals[index]
            } else {
                Vec3::new(0, 0, 0)
            };
            let texcoord: Vec2 = if self.texcoords.len() > 0 {
                self.texcoords[index]
            } else {
                Vec2::new(0, 0)
            };
            vertex_array.push(Vertex::new(position, normal, texcoord));
            k = k + 1;
        }
        Some(vertex_array)
    }
}

/// Whether a byte is ASCII white space.
pub open spec fn is_space(b: u8) -> bool {
    b == 32 || (9 <= b && b <= 13)
}

/// Whether a byte is a decimal digit.
pub open spec fn is_digit(b: u8) -> bool {
    48 <= b && b <= 57
}

/// The first place at or after `i` that holds no white space.
pub open spec fn skip_spaces(s: Seq<u8>, i: int) -> int
    decreases s.len() - i,
{
    if 0 <= i < s.len() && is_space(s[i]) {
        skip_spaces(s, i + 1)
    } else {
        i
    }
}

/// The end of the word that starts at `i`: the first white space at or
/// after `i`, or the end of the line.
pub open spec fn word_end(s: Seq<u8>, i: int) -> int
    decreases s.len() - i,
{
    if 0 <= i < s.len() && !is_space(s[i]) {
        word_end(s, i + 1)
    } else {
        i
    }
}

/// The end of the first field of a group: the first slash at or after `i`,
/// or `end`.
pub open spec fn field_end(s: Seq<u8>, i: int, end: int) -> int
    decreases end - i,
{
    if 0 <= i < end && s[i] != 47 {
        field_end(s, i + 1, end)
    } else {
        i
    }
}

/// The number written in decimal in `s[from..to]`, or `None` where a byte is
/// not a digit. Nothing at all is the number zero.
pub open spec fn number_spec(s: Seq<u8>, from: int, to: int) -> Option<int>
    decreases to - from,
{
    if to <= from {
        Some(0)
    } else if !is_digit(s[to - 1]) {
        None
    } else {
        match number_spec(s, from, to - 1) {
            Some(v) => Some(10 * v + (s[to - 1] - 48)),
            None => None,
        }
    }
}

/// The vertex index that the group `s[from..to]` of a face line names: its
/// first field, a positive decimal number with an optional plus sign, less
/// one. A field that is empty, not a number, zero, or beyond 32 bits names
/// no index.
pub open spec fn index_spec(s: Seq<u8>, from: int, to: int) -> Option<u32> {
    let start = if from < to && s[from] == 43 {
        from + 1
    } else {
        from
    };
    let stop = field_end(s, start, to);
    if stop <= start {
        None
    } else {
        match number_spec(s, start, stop) {
            Some(v) => if 1 <= v <= 0x1_0000_0000 {
                Some((v - 1) as u32)
            } else {
                None
            },
            None => None,
        }
    }
}

/// The three vertex indices of a face line: the word `f`, then three groups
/// that each name an index. Further groups are ignored.
pub open spec fn face_spec(line: Seq<u8>) -> Option<(u32, u32, u32)> {
    let k0 = skip_spaces(line, 0);
    let k1 = word_end(line, k0);
    if !(k1 == k0 + 1 && line[k0] == 102) {
        None
    } else {
        let a0 = skip_spaces(line, k1);
        let a1 = word_end(line, a0);
        let b0 = skip_spaces(line, a1);
        let b1 = word_end(line, b0);
        let c0 = skip_spaces(line, b1);
        let c1 = word_end(line, c0);
        match (index_spec(line, a0, a1), index_spec(line, b0, b1), index_spec(line, c0, c1)) {
            (Some(i), Some(j), Some(k)) => Some((i, j, k)),
            _ => None,
        }
    }
}

/// A number has a number in front of every digit, and grows with them.
proof fn lemma_number_prefix(s: Seq<u8>, from: int, mid: int, to: int)
    requires
        from <= mid <= to,
    ensures
        number_spec(s, from, mid).is_none() ==> number_spec(s, from, to).is_none(),
        number_spec(s, from, to) matches Some(v) ==> number_spec(s, from, mid).is_some()
            && 0 <= number_spec(s, from, mid).unwrap() <= v,
    decreases to - mid,
{
    if mid < to {
        lemma_number_prefix(s, from, mid, to - 1);
    } else {
        lemma_number_sign(s, from, to);
    }
}

/// A number is not negative.
proof fn lemma_number_sign(s: Seq<u8>, from: int, to: int)
    ensures
        number_spec(s, from, to) matches Some(v) ==> v >= 0,
    decreases to - from,
{
    if to > from {
        lemma_number_sign(s, from, to - 1);
    }
}

fn space(b: u8) -> (r: bool)
    ensures
        r == is_space(b),
{
    b == 32 || (9 <= b && b <= 13)
}

fn after_spaces(line: &[u8], from: usize) -> (r: usize)
    requires
        from <= line.len(),
    ensures
        r == skip_spaces(line@, from as int),
        from <= r <= line.len(),
{
    let mut i: usize = from;
    while i < line.len() && space(line[i])
        invariant
            from <= i <= line.len(),
            skip_spaces(line@, from as int) == skip_spaces(line@, i as int),
        decreases line.len() - i,
    {
        i = i + 1;
    }
    i
}

fn after_word(line: &[u8], from: usize) -> (r: usize)
    requires
        from <= line.len(),
    ensures
        r == word_end(line@, from as int),
        from <= r <= line.len(),
{
    let mut i: usize = from;
    while i < line.len() && !space(line[i])
        invariant
            from <= i <= line.len(),
            word_end(line@, from as int) == word_end(line@, i as int),
        decreases line.len() - i,
    {
        i = i + 1;
    }
    i
}

fn parse_index(line: &[u8], from: usize, to: usize) -> (r: Option<u32>)
    requires
        from <= to <= line.len(),
    ensures
        r == index_spec(line@, from as int, to as int),
{
    let start: usize = if from < to && line[from] == 43 {
        from + 1
    } else {
        from
    };
    let mut stop: usize = start;
    while stop < to && line[stop] != 47
        invariant
            start <= stop <= to <= line.len(),
            field_end(line@, start as int, to as int) == field_end(line@, stop as int, to as int),
        decreases to - stop,
    {
        stop = stop + 1;
    }
    if stop <= start {
        return None;
    }
    let mut value: u64 = 0;
    let mut i: usize = start;
    while i < stop
        invariant
            from <= start <= i <= stop <= to <= line.len(),
            start < stop,
            start == (if from < to && line@[from as int] == 43 {
                from + 1
            } else {
                from as int
            }),
            stop == field_end(line@, start as int, to as int),
            number_spec(line@, start as int, i as int) == Some(value as int),
            value <= 0x1_0000_0000,
        decreases stop - i,
    {
        let b: u8 = line[i];
        proof {
            lemma_number_prefix(line@, start as int, i as int + 1, stop as int);
        }
        if !(48 <= b && b <= 57) {
            return None;
        }
        let next: u64 = 10 * value + (b - 48) as u64;
        if next > 0x1_0000_0000 {
            return None;
        }
        value = next;
        i = i + 1;
    }
    if value >= 1 {
        Some((value - 1) as u32)
    } else {
        None
    }
}

/// Reads the three vertex indices of a face line of a mesh file, counted
/// from zero. A line that is not a face line, or whose first three groups
/// do not each name an index, gives `None`.
pub fn parse_face(line: &[u8]) -> (r: Option<(u32, u32, u32)>)
    ensures
        r == face_spec(line@),
{
    let k0: usize = after_spaces(line, 0);
    let k1: usize = after_word(line, k0);
    if !(k0 < line.len() && k1 == k0 + 1 && line[k0] == 102) {
        return None;
    }
    let a0: usize = after_spaces(line, k1);
    let a1: usize = after_word(line, a0);
    let b0: usize = after_spaces(line, a1);
    let b1: usize = after_word(line, b0);
    let c0: usize = after_spaces(line, b1);
    let c1: usize = after_word(line, c0);
    let first: Option<u32> = parse_index(line, a0, a1);
    let second: Option<u32> = parse_index(line, b0, b1);
    let third: Option<u32> = parse_index(line, c0, c1);
    match (first, second, third) {
        (Some(i), Some(j), Some(k)) => Some((i, j, k)),
        _ => None,
    }
}

} // verus!
