//! Asset-side rules: which file names to try for a resource, which sky format
//! a file holds, and how many triangles share each vertex of a mesh.
use vstd::prelude::*;
use vstd::string::{StrSliceExecFns, StringExecFns};
use crate::sky::SkyFormat;

verus! {

/// `s` ends with `suffix`.
pub open spec fn ends_with(s: Seq<char>, suffix: Seq<char>) -> bool {
    s.len() >= suffix.len() && s.subrange(s.len() - suffix.len(), s.len() as int) == suffix
}

/// The characters of `.jpg`.
pub open spec fn jpg_ext() -> Seq<char> {
    seq!['.', 'j', 'p', 'g']
}

/// The characters of `.jpeg`.
pub open spec fn jpeg_ext() -> Seq<char> {
    seq!['.', 'j', 'p', 'e', 'g']
}

/// The characters of `.exr`.
pub open spec fn exr_ext() -> Seq<char> {
    seq!['.', 'e', 'x', 'r']
}

/// File names tried for a resource: the name itself, then, for a JPEG image,
/// the same name with the other JPEG extension (`.jpg` and `.jpeg`).
pub open spec fn resource_candidates(name: Seq<char>) -> Seq<Seq<char>> {
    if ends_with(name, jpg_ext()) {
        seq![name, name.subrange(0, name.len() - 4) + jpeg_ext()]
    } else if ends_with(name, jpeg_ext()) {
        seq![name, name.subrange(0, name.len() - 5) + jpg_ext()]
    } else {
        seq![name]
    }
}

/// Whether `s` ends with the characters of `suffix`.
fn has_suffix(s: &str, n: usize, suffix: &str, m: usize) -> (r: bool)
    requires
        n == s@.len(),
        m == suffix@.len(),
    ensures
        r == ends_with(s@, suffix@),
{
    if n < m {
        return false;
    }
    let mut i: usize = 0;
    while i < m
        invariant
            i <= m <= n,
            n == s@.len(),
            m == suffix@.len(),
            forall|k: int| 0 <= k < i ==> s@[n - m + k] == suffix@[k],
        decreases m - i,
    {
        if s.get_char(n - m + i) != suffix.get_char(i) {
            assert(s@.subrange(n - m, n as int)[i as int] != suffix@[i as int]);
            return false;
        }
        i = i + 1;
    }
    assert(s@.subrange(n - m, n as int) =~= suffix@);
    true
}

/// The file names to look for when loading the resource `file_name`.
pub fn resource_candidate_names(file_name: &str) -> (names: Vec<String>)
    ensures
        names@.len() == resource_candidates(file_name@).len(),
        forall|i: int|
            0 <= i < names@.len() ==> #[trigger] names@[i]@ == resource_candidates(file_name@)[i],
{
    proof {
        reveal_strlit(".jpg");
        reveal_strlit(".jpeg");
    }
    assert(".jpg"@ =~= jpg_ext());
    assert(".jpeg"@ =~= jpeg_ext());
    let n = file_name.unicode_len();
    let mut names: Vec<String> = Vec::new();
    names.push(file_name.to_owned());
    if has_suffix(file_name, n, ".jpg", 4) {
        let base = file_name.substring_char(0, n - 4);
        let other = String::from_str(base).concat(".jpeg");
        names.push(other);
    } else if has_suffix(file_name, n, ".jpeg", 5) {
        let base = file_name.substring_char(0, n - 5);
        let other = String::from_str(base).concat(".jpg");
        names.push(other);
    }
    names
}

/// Order in which resource locations are probed: every candidate name under
/// the first root directory, then every candidate name under the next root, and
/// so on. Entry `k` is the pair (root, name) `(k / name_count, k % name_count)`.
pub fn search_order(root_count: usize, name_count: usize) -> (order: Vec<(usize, usize)>)
    requires
        root_count * name_count <= usize::MAX,
    ensures
        order@.len() == root_count * name_count,
        forall|k: int|
            0 <= k < order@.len() ==> #[trigger] order@[k] == ((k / name_count as int) as usize, (k
                % name_count as int) as usize),
{
    let mut order: Vec<(usize, usize)> = Vec::new();
    let mut r: usize = 0;
    while r < root_count
        invariant
            r <= root_count,
            root_count * name_count <= usize::MAX,
            order@.len() == r * name_count,
            forall|k: int|
                0 <= k < order@.len() ==> #[trigger] order@[k] == ((k / name_count as int) as usize, (k
                    % name_count as int) as usize),
        decreases root_count - r,
    {
        let mut c: usize = 0;
        while c < name_count
            invariant
                r < root_count,
                c <= name_count,
                root_count * name_count <= usize::MAX,
                order@.len() == r * name_count + c,
                forall|k: int|
                    0 <= k < order@.len() ==> #[trigger] order@[k] == ((k / name_count as int) as usize, (k
                        % name_count as int) as usize),
            decreases name_count - c,
        {
            proof {
                let k = r * name_count + c;
                vstd::arithmetic::div_mod::lemma_fundamental_div_mod_converse(
                    k as int,
                    name_count as int,
                    r as int,
                    c as int,
                );
            }
            order.push((r, c));
            c = c + 1;
        }
        proof {
            assert((r + 1) * name_count == r * name_count + name_count) by (nonlinear_arith);
            assert((r + 1) * name_count <= root_count * name_count) by (nonlinear_arith)
                requires
                    r < root_count,
            ;
        }
        r = r + 1;
    }
    order
}

/// Position of the first location, in probing order, where the resource was
/// found, or `None` when it was found nowhere.
pub fn first_found(found: &Vec<bool>) -> (pos: Option<usize>)
    ensures
        match pos {
            Some(k) => k < found@.len() && found@[k as int] && forall|j: int|
                0 <= j < k ==> !#[trigger] found@[j],
            None => forall|j: int| 0 <= j < found@.len() ==> !#[trigger] found@[j],
        },
{
    let mut k: usize = 0;
    while k < found.len()
        invariant
            k <= found@.len(),
            forall|j: int| 0 <= j < k ==> !#[trigger] found@[j],
        decreases found@.len() - k,
    {
        if found[k] {
            return Some(k);
        }
        k = k + 1;
    }
    None
}

/// The file that a material of an OBJ file names, `name`, resolved against
/// the OBJ file's directory `dir` as a path join on Unix does: an empty
/// directory or an absolute name leaves the name alone, otherwise one `/`
/// separates the two.
pub open spec fn joined_path(dir: Seq<char>, name: Seq<char>) -> Seq<char> {
    if dir.len() == 0 || (name.len() > 0 && name[0] == '/') {
        name
    } else if dir[dir.len() - 1] == '/' {
        dir + name
    } else {
        dir + seq!['/'] + name
    }
}

/// Resolves the file `name` named by a material against the directory `dir`
/// of the OBJ file that uses it.
pub fn material_path(dir: &str, name: &str) -> (path: String)
    ensures
        path@ == joined_path(dir@, name@),
{
    proof {
        reveal_strlit("/");
    }
    let n = dir.unicode_len();
    let m = name.unicode_len();
    if n == 0 || (m > 0 && name.get_char(0) == '/') {
        return name.to_owned();
    }
    if dir.get_char(n - 1) == '/' {
        String::from_str(dir).concat(name)
    } else {
        let with_sep = String::from_str(dir).concat("/");
        assert("/"@ =~= seq!['/']);
        with_sep.concat(name)
    }
}

/// The normal map of a material: `None` when the material names none (a flat
/// default normal is used), else the file it names, resolved against `dir`.
pub fn normal_map_path(dir: &str, normal_name: &str) -> (path: Option<String>)
    ensures
        normal_name@.len() == 0 ==> path is None,
        normal_name@.len() > 0 ==> path is Some && path->Some_0@ == joined_path(dir@, normal_name@),
{
    if normal_name.unicode_len() == 0 {
        None
    } else {
        Some(material_path(dir, normal_name))
    }
}

/// Sky format of an environment file, told by its extension: `.exr` files
/// are OpenEXR, everything else Radiance HDR.
pub fn sky_format_for(file_name: &str) -> (format: SkyFormat)
    ensures
        format == if ends_with(file_name@, exr_ext()) {
            SkyFormat::Exr
        } else {
            SkyFormat::Hdr
        },
{
    proof {
        reveal_strlit(".exr");
    }
    assert(".exr"@ =~= exr_ext());
    let n = file_name.unicode_len();
    if has_suffix(file_name, n, ".exr", 4) {
        SkyFormat::Exr
    } else {
        SkyFormat::Hdr
    }
}

/// Number of entries of `s` equal to `v`.
pub open spec fn occurrences(s: Seq<u32>, v: int) -> nat {
    s.filter(equals(v)).len()
}

/// The predicate "is `v`".
pub open spec fn equals(v: int) -> spec_fn(u32) -> bool {
    |x: u32| x as int == v
}

proof fn lemma_occurrences_push(s: Seq<u32>, x: u32, v: int)
    ensures
        occurrences(s.push(x), v) == occurrences(s, v) + if x as int == v {
            1nat
        } else {
            0nat
        },
{
    s.lemma_filter_len_push(equals(v), x);
}

proof fn lemma_occurrences_empty(v: int)
    ensures
        occurrences(Seq::<u32>::empty(), v) == 0,
{
    assert(Seq::<u32>::empty().filter(equals(v)) =~= Seq::<u32>::empty());
}

/// Adds one to `counts[i]` for the index at position `p` of the index buffer.
fn count_index(counts: &mut Vec<usize>, indices: &Vec<u32>, p: usize)
    requires
        p < indices@.len(),
        (indices@[p as int] as int) < old(counts)@.len(),
        forall|v: int|
            0 <= v < old(counts)@.len() ==> old(counts)@[v] == occurrences(
                indices@.take(p as int),
                v,
            ),
    ensures
        final(counts)@.len() == old(counts)@.len(),
        forall|v: int|
            0 <= v < final(counts)@.len() ==> final(counts)@[v] == occurrences(
                indices@.take(p + 1),
                v,
            ),
{
    let i = indices[p] as usize;
    assert(indices@.take(p + 1) =~= indices@.take(p as int).push(indices@[p as int]));
    proof {
        assert forall|v: int| 0 <= v < counts@.len() implies #[trigger] occurrences(indices@.take(p + 1), v)
            == occurrences(indices@.take(p as int), v) + if indices@[p as int] as int == v {
            1nat
        } else {
            0nat
        } by {
            lemma_occurrences_push(indices@.take(p as int), indices@[p as int], v);
        }
        indices@.take(p as int).lemma_filter_len(equals(indices@[p as int] as int));
    }
    let c = counts[i];
    assert(i as int == indices@[p as int] as int);
    assert(c == occurrences(indices@.take(p as int), i as int));
    assert(c <= p);
    let n = indices.len();
    assert(p < n);
    counts.set(i, c + 1);
    proof {
        assert forall|v: int| 0 <= v < counts@.len() implies counts@[v] == occurrences(
            indices@.take(p + 1),
            v,
        ) by {
            if v != i as int {
                assert(indices@[p as int] as int != v);
            }
        }
    }
}

/// For each of `vertex_count` vertices, how many triangle corners of the index
/// buffer refer to it (the number of triangles it belongs to, used to average
/// tangents).
pub fn triangle_incidence(indices: &Vec<u32>, vertex_count: usize) -> (counts: Vec<usize>)
    requires
        indices@.len() % 3 == 0,
        forall|p: int| 0 <= p < indices@.len() ==> (#[trigger] indices@[p] as int) < vertex_count,
    ensures
        counts@.len() == vertex_count,
        forall|v: int|
            0 <= v < vertex_count ==> #[trigger] counts@[v] == occurrences(indices@, v),
{
    let mut counts: Vec<usize> = Vec::new();
    let mut k: usize = 0;
    while k < vertex_count
        invariant
            k <= vertex_count,
            counts@.len() == k,
            forall|v: int| 0 <= v < k ==> counts@[v] == 0,
        decreases vertex_count - k,
    {
        counts.push(0);
        k = k + 1;
    }
    proof {
        assert(indices@.take(0) =~= Seq::<u32>::empty());
        assert forall|v: int| 0 <= v < counts@.len() implies counts@[v] == occurrences(
            indices@.take(0),
            v,
        ) by {
            lemma_occurrences_empty(v);
        }
    }
    let len = indices.len();
    let mut t: usize = 0;
    while t < len
        invariant
            t <= len,
            t % 3 == 0,
            len == indices@.len(),
            len % 3 == 0,
            counts@.len() == vertex_count,
            forall|p: int| 0 <= p < indices@.len() ==> (#[trigger] indices@[p] as int) < vertex_count,
            forall|v: int|
                0 <= v < counts@.len() ==> counts@[v] == occurrences(indices@.take(t as int), v),
        decreases len - t,
    {
        count_index(&mut counts, indices, t);
        count_index(&mut counts, indices, t + 1);
        count_index(&mut counts, indices, t + 2);
        t = t + 3;
    }
    assert(indices@.take(len as int) =~= indices@);
    counts
}

} // verus!
