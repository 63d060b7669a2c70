//! Fixed-size, NUL-terminated model file names (`[u8; 32]`) and their
//! classification.

use vstd::prelude::*;
use vstd::string::*;
use vstd::utf8::*;

verus! {

broadcast use {vstd::utf8::group_utf8_lib, vstd::string::group_string_axioms};

/// Size of a model-name buffer, terminating NUL included.
pub const MODEL_BUF_LEN: usize = 32;

/// The bytes that `model` stores for a name with the given UTF-8 bytes:
/// at most 31 leading bytes, the rest zero.
pub open spec fn model_buf(bytes: Seq<u8>) -> Seq<u8> {
    Seq::new(32, |i: int| if i < bytes.len() && i < 31 { bytes[i] } else { 0u8 })
}

/// Number of bytes before the first NUL (the whole length when there is none).
pub open spec fn name_len(s: Seq<u8>) -> nat
    decreases s.len(),
{
    if s.len() == 0 {
        0
    } else if s[0] == 0 {
        0
    } else {
        1 + name_len(s.drop_first())
    }
}

/// The characters that `model_str` reads out of a buffer: the bytes before the
/// first NUL decoded as UTF-8, or `"sphere.glb"` when they are not valid UTF-8.
pub open spec fn model_str_spec(buf: Seq<u8>) -> Seq<char> {
    let p = buf.take(name_len(buf) as int);
    if valid_utf8(p) {
        decode_utf8(p)
    } else {
        "sphere.glb"@
    }
}

pub proof fn lemma_name_len(s: Seq<u8>)
    ensures
        name_len(s) <= s.len(),
        forall|j: int| 0 <= j < name_len(s) ==> s[j] != 0,
        name_len(s) < s.len() ==> s[name_len(s) as int] == 0,
    decreases s.len(),
{
    if s.len() > 0 && s[0] != 0 {
        lemma_name_len(s.drop_first());
        assert forall|j: int| 0 <= j < name_len(s) implies s[j] != 0 by {
            if j > 0 {
                assert(s[j] == s.drop_first()[j - 1]);
            }
        }
    }
}

/// `name_len` is the unique index that splits off a NUL-free prefix at a NUL
/// (or at the end).
pub proof fn lemma_name_len_unique(s: Seq<u8>, r: int)
    requires
        0 <= r <= s.len(),
        forall|j: int| 0 <= j < r ==> s[j] != 0,
        r < s.len() ==> s[r] == 0,
    ensures
        name_len(s) == r,
{
    lemma_name_len(s);
    if name_len(s) < r {
        assert(s[name_len(s) as int] == 0);
    }
    if r < name_len(s) {
        assert(s[r] != 0);
    }
}

/// Packs a model file name into a fixed 32-byte buffer: its first
/// `min(len, 31)` UTF-8 bytes, then zeros, so the buffer always ends in NUL.
pub fn model(name: &str) -> (buf: [u8; 32])
    ensures
        buf@ == model_buf(name.spec_bytes()),
{
    let mut buf = [0u8; 32];
    let b = name.as_bytes();
    let n: usize = if b.len() < 31 { b.len() } else { 31 };
    let mut i: usize = 0;
    while i < n
        invariant
            n <= 31,
            n <= b@.len(),
            b@ == name.spec_bytes(),
            0 <= i <= n,
            forall|j: int| 0 <= j < i ==> buf@[j] == b@[j],
            forall|j: int| i <= j < 32 ==> buf@[j] == 0u8,
        decreases n - i,
    {
        buf[i] = b[i];
        i = i + 1;
    }
    assert(buf@ =~= model_buf(name.spec_bytes()));
    buf
}

/// Position of the first NUL in a model buffer, or 32 when there is none.
pub fn model_len(buf: &[u8; 32]) -> (n: usize)
    ensures
        n == name_len(buf@),
        n <= 32,
{
    let mut i: usize = 0;
    while i < 32 && buf[i] != 0
        invariant
            0 <= i <= 32,
            forall|j: int| 0 <= j < i ==> buf@[j] != 0,
        decreases 32 - i,
    {
        i = i + 1;
    }
    proof {
        lemma_name_len_unique(buf@, i as int);
    }
    i
}

/// `std::str::from_utf8`: the slice as a `str` when it holds valid UTF-8.
/// Claimed: `Some` exactly when the bytes are valid UTF-8 (vstd's
/// `valid_utf8`), and the returned `str` then has exactly these bytes.
#[verifier::external_body]
fn str_from_utf8(bytes: &[u8]) -> (r: Option<&str>)
    ensures
        r is Some <==> valid_utf8(bytes@),
        r matches Some(s) ==> s.spec_bytes() == bytes@,
{
    std::str::from_utf8(bytes).ok()
}

/// The name stored in a model buffer: the bytes before the first NUL as a
/// `str`, or `"sphere.glb"` when those bytes are not valid UTF-8.
pub fn model_str(buf: &[u8; 32]) -> (s: &str)
    ensures
        s@ == model_str_spec(buf@),
{
    let end = model_len(buf);
    let all: &[u8] = buf.as_slice();
    let prefix: &[u8] = &all[0..end];
    assert(prefix@ == buf@.take(name_len(buf@) as int));
    match str_from_utf8(prefix) {
        Some(s) => {
            proof {
                encode_utf8_decode_utf8(s@);
            }
            s
        },
        None => "sphere.glb",
    }
}

/// A name of at most 31 UTF-8 bytes without a NUL byte survives the trip
/// through a model buffer unchanged.
pub proof fn lemma_model_round_trip(name: Seq<char>)
    requires
        encode_utf8(name).len() <= 31,
        !encode_utf8(name).contains(0u8),
    ensures
        model_str_spec(model_buf(encode_utf8(name))) == name,
{
    let b = encode_utf8(name);
    let buf = model_buf(b);
    assert forall|j: int| 0 <= j < b.len() implies buf[j] != 0 by {
        if buf[j] == 0 {
            assert(b[j] == 0u8);
            assert(b.contains(0u8));
        }
    }
    lemma_name_len_unique(buf, b.len() as int);
    assert(buf.take(b.len() as int) =~= b);
    encode_utf8_valid_utf8(name);
    encode_utf8_decode_utf8(name);
}

/// Every model buffer ends in a NUL byte, whatever the name.
pub proof fn lemma_model_nul_terminated(bytes: Seq<u8>)
    ensures
        model_buf(bytes).len() == 32,
        model_buf(bytes)[31] == 0,
        name_len(model_buf(bytes)) <= 31,
{
    let buf = model_buf(bytes);
    lemma_name_len(buf);
    if name_len(buf) > 31 {
        assert(buf[31] != 0);
    }
}

/// The models that the scene knows how to build or place.
#[derive(Clone, Copy, Debug, PartialEq, Eq, Structural)]
pub enum ModelKind {
    Plane,
    Sphere,
    Particle,
    SunSphere,
    Cube,
    Room,
    Torus,
    Star,
    Other,
}

/// The kind of a model named by its file name.
pub open spec fn model_kind_spec(name: Seq<char>) -> ModelKind {
    if name == "plane.glb"@ {
        ModelKind::Plane
    } else if name == "sphere.glb"@ {
        ModelKind::Sphere
    } else if name == "particle.glb"@ {
        ModelKind::Particle
    } else if name == "sun_sphere.glb"@ {
        ModelKind::SunSphere
    } else if name == "cube.glb"@ {
        ModelKind::Cube
    } else if name == "room.glb"@ {
        ModelKind::Room
    } else if name == "torus.glb"@ {
        ModelKind::Torus
    } else if name == "star.glb"@ {
        ModelKind::Star
    } else {
        ModelKind::Other
    }
}

/// The file name of each known model.
pub open spec fn kind_file_name(k: ModelKind) -> Seq<char> {
    match k {
        ModelKind::Plane => "plane.glb"@,
        ModelKind::Sphere => "sphere.glb"@,
        ModelKind::Particle => "particle.glb"@,
        ModelKind::SunSphere => "sun_sphere.glb"@,
        ModelKind::Cube => "cube.glb"@,
        ModelKind::Room => "room.glb"@,
        ModelKind::Torus => "torus.glb"@,
        ModelKind::Star => "star.glb"@,
        ModelKind::Other => Seq::empty(),
    }
}

/// A name is classified as the known model whose file name it is, and as
/// `Other` exactly when it is none of them.
pub proof fn lemma_model_kind_by_file_name(name: Seq<char>, k: ModelKind)
    ensures
        k != ModelKind::Other ==> model_kind_spec(kind_file_name(k)) == k,
        model_kind_spec(name) != ModelKind::Other ==> kind_file_name(model_kind_spec(name)) == name,
{
    reveal_strlit("plane.glb");
    reveal_strlit("sphere.glb");
    reveal_strlit("particle.glb");
    reveal_strlit("sun_sphere.glb");
    reveal_strlit("cube.glb");
    reveal_strlit("room.glb");
    reveal_strlit("torus.glb");
    reveal_strlit("star.glb");
    assert("plane.glb"@ != "sphere.glb"@) by { assert("plane.glb"@[0] != "sphere.glb"@[0]); }
    assert("plane.glb"@ != "particle.glb"@) by { assert("plane.glb"@[1] != "particle.glb"@[1]); }
    assert("plane.glb"@ != "sun_sphere.glb"@) by { assert("plane.glb"@[0] != "sun_sphere.glb"@[0]); }
    assert("plane.glb"@ != "cube.glb"@) by { assert("plane.glb"@[0] != "cube.glb"@[0]); }
    assert("plane.glb"@ != "room.glb"@) by { assert("plane.glb"@[0] != "room.glb"@[0]); }
    assert("plane.glb"@ != "torus.glb"@) by { assert("plane.glb"@[0] != "torus.glb"@[0]); }
    assert("plane.glb"@ != "star.glb"@) by { assert("plane.glb"@[0] != "star.glb"@[0]); }
    assert("sphere.glb"@ != "particle.glb"@) by { assert("sphere.glb"@[0] != "particle.glb"@[0]); }
    assert("sphere.glb"@ != "sun_sphere.glb"@) by { assert("sphere.glb"@[1] != "sun_sphere.glb"@[1]); }
    assert("sphere.glb"@ != "cube.glb"@) by { assert("sphere.glb"@[0] != "cube.glb"@[0]); }
    assert("sphere.glb"@ != "room.glb"@) by { assert("sphere.glb"@[0] != "room.glb"@[0]); }
    assert("sphere.glb"@ != "torus.glb"@) by { assert("sphere.glb"@[0] != "torus.glb"@[0]); }
    assert("sphere.glb"@ != "star.glb"@) by { assert("sphere.glb"@[1] != "star.glb"@[1]); }
    assert("particle.glb"@ != "sun_sphere.glb"@) by { assert("particle.glb"@[0] != "sun_sphere.glb"@[0]); }
    assert("particle.glb"@ != "cube.glb"@) by { assert("particle.glb"@[0] != "cube.glb"@[0]); }
    assert("particle.glb"@ != "room.glb"@) by { assert("particle.glb"@[0] != "room.glb"@[0]); }
    assert("particle.glb"@ != "torus.glb"@) by { assert("particle.glb"@[0] != "torus.glb"@[0]); }
    assert("particle.glb"@ != "star.glb"@) by { assert("particle.glb"@[0] != "star.glb"@[0]); }
    assert("sun_sphere.glb"@ != "cube.glb"@) by { assert("sun_sphere.glb"@[0] != "cube.glb"@[0]); }
    assert("sun_sphere.glb"@ != "room.glb"@) by { assert("sun_sphere.glb"@[0] != "room.glb"@[0]); }
    assert("sun_sphere.glb"@ != "torus.glb"@) by { assert("sun_sphere.glb"@[0] != "torus.glb"@[0]); }
    assert("sun_sphere.glb"@ != "star.glb"@) by { assert("sun_sphere.glb"@[1] != "star.glb"@[1]); }
    assert("cube.glb"@ != "room.glb"@) by { assert("cube.glb"@[0] != "room.glb"@[0]); }
    assert("cube.glb"@ != "torus.glb"@) by { assert("cube.glb"@[0] != "torus.glb"@[0]); }
    assert("cube.glb"@ != "star.glb"@) by { assert("cube.glb"@[0] != "star.glb"@[0]); }
    assert("room.glb"@ != "torus.glb"@) by { assert("room.glb"@[0] != "torus.glb"@[0]); }
    assert("room.glb"@ != "star.glb"@) by { assert("room.glb"@[0] != "star.glb"@[0]); }
    assert("torus.glb"@ != "star.glb"@) by { assert("torus.glb"@[0] != "star.glb"@[0]); }
}

fn bytes_eq(a: &[u8], b: &[u8]) -> (r: bool)
    ensures
        r == (a@ == b@),
{
    if a.len() != b.len() {
        return false;
    }
    let mut i: usize = 0;
    while i < a.len()
        invariant
            a@.len() == b@.len(),
            0 <= i <= a@.len(),
            forall|j: int| 0 <= j < i ==> a@[j] == b@[j],
        decreases a@.len() - i,
    {
        if a[i] != b[i] {
            return false;
        }
        i = i + 1;
    }
    assert(a@ =~= b@);
    true
}

/// Whether `name` is spelled exactly `lit`.
fn str_is(name: &str, lit: &str) -> (r: bool)
    ensures
        r == (name@ == lit@),
{
    let r = bytes_eq(name.as_bytes(), lit.as_bytes());
    proof {
        encode_utf8_decode_utf8(name@);
        encode_utf8_decode_utf8(lit@);
    }
    r
}

/// Classifies a model file name.
pub fn model_kind(name: &str) -> (k: ModelKind)
    ensures
        k == model_kind_spec(name@),
{
    if str_is(name, "plane.glb") {
        ModelKind::Plane
    } else if str_is(name, "sphere.glb") {
        ModelKind::Sphere
    } else if str_is(name, "particle.glb") {
        ModelKind::Particle
    } else if str_is(name, "sun_sphere.glb") {
        ModelKind::SunSphere
    } else if str_is(name, "cube.glb") {
        ModelKind::Cube
    } else if str_is(name, "room.glb") {
        ModelKind::Room
    } else if str_is(name, "torus.glb") {
        ModelKind::Torus
    } else if str_is(name, "star.glb") {
        ModelKind::Star
    } else {
        ModelKind::Other
    }
}

/// Signed-distance-field primitive used to shade an object.
#[derive(Clone, Copy, Debug, PartialEq, Eq, Structural)]
pub enum SdfShape {
    Sphere,
    Box,
    Torus,
}

/// Spheres and particles are SDF spheres, cubes and stars SDF boxes, tori SDF
/// tori; every other model (room, plane, sun sphere, unknown) has none.
pub open spec fn sdf_shape_spec(kind: ModelKind) -> Option<SdfShape> {
    match kind {
        ModelKind::Sphere | ModelKind::Particle => Some(SdfShape::Sphere),
        ModelKind::Cube | ModelKind::Star => Some(SdfShape::Box),
        ModelKind::Torus => Some(SdfShape::Torus),
        _ => None,
    }
}

/// The SDF primitive for a model kind, if it has one.
pub fn sdf_shape(kind: ModelKind) -> (r: Option<SdfShape>)
    ensures
        r == sdf_shape_spec(kind),
{
    match kind {
        ModelKind::Sphere | ModelKind::Particle => Some(SdfShape::Sphere),
        ModelKind::Cube | ModelKind::Star => Some(SdfShape::Box),
        ModelKind::Torus => Some(SdfShape::Torus),
        _ => None,
    }
}

} // verus!
