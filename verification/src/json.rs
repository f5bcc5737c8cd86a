//! The document serializer: renders a scene-graph document as JSON text,
//! byte for byte, with the format's key names, its field order, and its
//! default-omission rules.
//!
//! The specification functions in this module define the exact output;
//! every emitter is proved to produce it.  Keys and punctuation are
//! ASCII, strings are escaped as JSON requires, numbers that the kernel
//! owns (indices, counts, codes) are rendered in decimal, and numbers
//! that carry floating-point values are emitted as the rendered text
//! their [`crate::scalar::Real`] holds.
use vstd::prelude::*;

use crate::document::AlphaMode;
use crate::document::ComponentType;
use crate::document::Mode;
use crate::document::Target;
use crate::document::Type;
use crate::document::Accessor;
use crate::document::Asset;
use crate::document::Attributes;
use crate::document::Buffer;
use crate::document::BufferView;
use crate::document::Color4;
use crate::document::EmissiveFactor;
use crate::document::GLTF;
use crate::document::Material;
use crate::document::Mesh;
use crate::document::MeshPrimitive;
use crate::document::Node;
use crate::document::PBRMetallicRoughness;
use crate::document::Rotation;
use crate::document::Scale;
use crate::document::Scene;
use crate::document::Translation;
use crate::document::is_default_alpha_mode;
use crate::document::is_default_alpha_cutoff;
use crate::document::is_default_byte_offset;
use crate::document::is_default_emissive_factor;
use crate::document::is_default_metallic_factor;
use crate::document::is_default_mode;
use crate::document::is_default_roughness_factor;
use crate::document::spec_color4_is_default;
use crate::document::spec_emissive_is_default;
use crate::document::spec_rotation_is_default;
use crate::document::spec_scale_is_default;
use crate::document::spec_translation_is_default;
use crate::scalar::Real;
use crate::scalar::Real32;
use crate::scalar::is_f64_half;
use crate::scalar::is_f64_one;
use vstd::string::StrSliceExecFns;
use vstd::string::StringSliceAdditionalSpecFns;

verus! {

pub const QUOTE: u8 = 34;
pub const COMMA: u8 = 44;
pub const COLON: u8 = 58;
pub const LBRACK: u8 = 91;
pub const BACKSLASH: u8 = 92;
pub const RBRACK: u8 = 93;
pub const LBRACE: u8 = 123;
pub const RBRACE: u8 = 125;

/// An object or array body with one more part appended: a comma separates
/// it from a body already begun.
pub open spec fn append_field(body: Seq<u8>, part: Seq<u8>) -> Seq<u8> {
    if body.len() == 0 {
        part
    } else {
        body + seq![COMMA] + part
    }
}

/// A quoted key with its trailing colon.
pub open spec fn spec_key(k: Seq<u8>) -> Seq<u8> {
    seq![QUOTE] + k + seq![QUOTE, COLON]
}

/// The decimal digits of `n`, most significant first.
pub open spec fn spec_dec_u32(n: nat) -> Seq<u8>
    decreases n,
{
    if n < 10 {
        seq![(48 + n) as u8]
    } else {
        spec_dec_u32(n / 10).push((48 + n % 10) as u8)
    }
}

/// The lowercase hexadecimal digit of `d`.
pub open spec fn spec_hex_digit(d: nat) -> u8 {
    if d < 10 {
        (48 + d) as u8
    } else {
        (87 + d) as u8
    }
}

/// How one byte of string content is emitted: the quote, the backslash
/// and the named control characters by their two-character escapes, other
/// control bytes by a four-digit escape, everything else verbatim.
pub open spec fn spec_escape_byte(b: u8) -> Seq<u8> {
    if b == QUOTE {
        seq![BACKSLASH, QUOTE]
    } else if b == BACKSLASH {
        seq![BACKSLASH, BACKSLASH]
    } else if b == 8 {
        seq![BACKSLASH, 98]
    } else if b == 9 {
        seq![BACKSLASH, 116]
    } else if b == 10 {
        seq![BACKSLASH, 110]
    } else if b == 12 {
        seq![BACKSLASH, 102]
    } else if b == 13 {
        seq![BACKSLASH, 114]
    } else if b < 32 {
        seq![BACKSLASH, 117, 48, 48, spec_hex_digit((b / 16) as nat), spec_hex_digit(
            (b % 16) as nat,
        )]
    } else {
        seq![b]
    }
}

/// The escaped form of a whole string content.
pub open spec fn spec_escape(s: Seq<u8>) -> Seq<u8>
    decreases s.len(),
{
    if s.len() == 0 {
        Seq::empty()
    } else {
        spec_escape(s.drop_last()) + spec_escape_byte(s.last())
    }
}

/// A JSON string: the escaped content between quotes.
pub open spec fn spec_json_string(s: Seq<u8>) -> Seq<u8> {
    seq![QUOTE] + spec_escape(s) + seq![QUOTE]
}

/// The comma-joined decimal renderings of an index list.
pub open spec fn spec_u32_list(s: Seq<u32>) -> Seq<u8>
    decreases s.len(),
{
    if s.len() == 0 {
        Seq::empty()
    } else {
        append_field(spec_u32_list(s.drop_last()), spec_dec_u32(s.last() as nat))
    }
}

/// An index list between brackets.
pub open spec fn spec_u32_array(s: Seq<u32>) -> Seq<u8> {
    seq![LBRACK] + spec_u32_list(s) + seq![RBRACK]
}

/// The comma-joined texts of a list of double-precision scalars.
pub open spec fn spec_real_list(s: Seq<Real>) -> Seq<u8>
    decreases s.len(),
{
    if s.len() == 0 {
        Seq::empty()
    } else {
        append_field(spec_real_list(s.drop_last()), s.last().text@)
    }
}

/// A list of double-precision scalars between brackets.
pub open spec fn spec_real_array(s: Seq<Real>) -> Seq<u8> {
    seq![LBRACK] + spec_real_list(s) + seq![RBRACK]
}

/// The comma-joined texts of a list of single-precision scalars.
pub open spec fn spec_real32_list(s: Seq<Real32>) -> Seq<u8>
    decreases s.len(),
{
    if s.len() == 0 {
        Seq::empty()
    } else {
        append_field(spec_real32_list(s.drop_last()), s.last().text@)
    }
}

/// A list of single-precision scalars between brackets.
pub open spec fn spec_real32_array(s: Seq<Real32>) -> Seq<u8> {
    seq![LBRACK] + spec_real32_list(s) + seq![RBRACK]
}

/// Appends a copy of the given bytes.
fn push_bytes(out: &mut Vec<u8>, src: &Vec<u8>)
    ensures
        final(out)@ == old(out)@ + src@,
{
    let n = src.len();
    let mut i: usize = 0;
    while i < n
        invariant
            n == src@.len(),
            i <= n,
            out@ == old(out)@ + src@.take(i as int),
        decreases n - i,
    {
        out.push(src[i]);
        proof {
            assert(src@.take(i + 1) =~= src@.take(i as int).push(src@[i as int]));
        }
        i = i + 1;
    }
    proof {
        assert(src@.take(n as int) =~= src@);
    }
}

/// Appends the bytes of an ASCII-or-UTF-8 literal.
fn push_lit(out: &mut Vec<u8>, s: &str)
    ensures
        final(out)@ == old(out)@ + s.spec_bytes(),
{
    let mut b = s.as_bytes_vec();
    out.append(&mut b);
}

/// Appends a quoted key and its colon.
fn push_key(out: &mut Vec<u8>, k: &str)
    ensures
        final(out)@ == old(out)@ + spec_key(k.spec_bytes()),
{
    out.push(QUOTE);
    push_lit(out, k);
    out.push(QUOTE);
    out.push(COLON);
    proof {
        assert(out@ =~= old(out)@ + spec_key(k.spec_bytes()));
    }
}

/// Appends the decimal rendering of `n`.
pub fn push_dec_u32(out: &mut Vec<u8>, n: u32)
    ensures
        final(out)@ == old(out)@ + spec_dec_u32(n as nat),
    decreases n,
{
    if n < 10 {
        out.push(48 + n as u8);
        proof {
            assert(out@ =~= old(out)@ + spec_dec_u32(n as nat));
        }
    } else {
        push_dec_u32(out, n / 10);
        out.push(48 + (n % 10) as u8);
        proof {
            assert(out@ =~= old(out)@ + spec_dec_u32(n as nat));
        }
    }
}

/// Appends the escaped form of one content byte.
fn push_escape_byte(out: &mut Vec<u8>, b: u8)
    ensures
        final(out)@ == old(out)@ + spec_escape_byte(b),
{
    if b == QUOTE {
        out.push(BACKSLASH);
        out.push(QUOTE);
    } else if b == BACKSLASH {
        out.push(BACKSLASH);
        out.push(BACKSLASH);
    } else if b == 8 {
        out.push(BACKSLASH);
        out.push(98);
    } else if b == 9 {
        out.push(BACKSLASH);
        out.push(116);
    } else if b == 10 {
        out.push(BACKSLASH);
        out.push(110);
    } else if b == 12 {
        out.push(BACKSLASH);
        out.push(102);
    } else if b == 13 {
        out.push(BACKSLASH);
        out.push(114);
    } else if b < 32 {
        out.push(BACKSLASH);
        out.push(117);
        out.push(48);
        out.push(48);
        out.push(if b / 16 < 10 {
            48 + b / 16
        } else {
            87 + b / 16
        });
        out.push(if b % 16 < 10 {
            48 + b % 16
        } else {
            87 + b % 16
        });
    } else {
        out.push(b);
    }
    proof {
        assert(out@ =~= old(out)@ + spec_escape_byte(b));
    }
}

/// Appends a whole JSON string.
pub fn push_json_string(out: &mut Vec<u8>, s: &Vec<u8>)
    ensures
        final(out)@ == old(out)@ + spec_json_string(s@),
{
    out.push(QUOTE);
    let n = s.len();
    let mut i: usize = 0;
    while i < n
        invariant
            n == s@.len(),
            i <= n,
            out@ == old(out)@ + seq![QUOTE] + spec_escape(s@.take(i as int)),
        decreases n - i,
    {
        push_escape_byte(out, s[i]);
        proof {
            assert(s@.take(i + 1).drop_last() =~= s@.take(i as int));
            assert(s@.take(i + 1).last() == s@[i as int]);
        }
        i = i + 1;
    }
    out.push(QUOTE);
    proof {
        assert(s@.take(n as int) =~= s@);
        assert(out@ =~= old(out)@ + spec_json_string(s@));
    }
}

/// Appends an index list between brackets.
pub fn push_u32_array(out: &mut Vec<u8>, s: &Vec<u32>)
    ensures
        final(out)@ == old(out)@ + spec_u32_array(s@),
{
    out.push(LBRACK);
    let body_start = out.len();
    let n = s.len();
    let mut i: usize = 0;
    while i < n
        invariant
            n == s@.len(),
            i <= n,
            body_start == old(out)@.len() + 1,
            out@ == old(out)@ + seq![LBRACK] + spec_u32_list(s@.take(i as int)),
        decreases n - i,
    {
        if out.len() > body_start {
            out.push(COMMA);
        }
        push_dec_u32(out, s[i]);
        proof {
            assert(s@.take(i + 1).drop_last() =~= s@.take(i as int));
            assert(s@.take(i + 1).last() == s@[i as int]);
            assert(out@ =~= old(out)@ + seq![LBRACK] + spec_u32_list(s@.take(i + 1)));
        }
        i = i + 1;
    }
    out.push(RBRACK);
    proof {
        assert(s@.take(n as int) =~= s@);
        assert(out@ =~= old(out)@ + spec_u32_array(s@));
    }
}

/// Appends a list of double-precision scalars between brackets.
pub fn push_real_array(out: &mut Vec<u8>, s: &Vec<Real>)
    ensures
        final(out)@ == old(out)@ + spec_real_array(s@),
{
    out.push(LBRACK);
    let body_start = out.len();
    let n = s.len();
    let mut i: usize = 0;
    while i < n
        invariant
            n == s@.len(),
            i <= n,
            body_start == old(out)@.len() + 1,
            out@ == old(out)@ + seq![LBRACK] + spec_real_list(s@.take(i as int)),
        decreases n - i,
    {
        if out.len() > body_start {
            out.push(COMMA);
        }
        push_bytes(out, &s[i].text);
        proof {
            assert(s@.take(i + 1).drop_last() =~= s@.take(i as int));
            assert(s@.take(i + 1).last() == s@[i as int]);
            assert(out@ =~= old(out)@ + seq![LBRACK] + spec_real_list(s@.take(i + 1)));
        }
        i = i + 1;
    }
    out.push(RBRACK);
    proof {
        assert(s@.take(n as int) =~= s@);
        assert(out@ =~= old(out)@ + spec_real_array(s@));
    }
}

/// Appends a list of single-precision scalars between brackets.
pub fn push_real32_array(out: &mut Vec<u8>, s: &Vec<Real32>)
    ensures
        final(out)@ == old(out)@ + spec_real32_array(s@),
{
    out.push(LBRACK);
    let body_start = out.len();
    let n = s.len();
    let mut i: usize = 0;
    while i < n
        invariant
            n == s@.len(),
            i <= n,
            body_start == old(out)@.len() + 1,
            out@ == old(out)@ + seq![LBRACK] + spec_real32_list(s@.take(i as int)),
        decreases n - i,
    {
        if out.len() > body_start {
            out.push(COMMA);
        }
        push_bytes(out, &s[i].text);
        proof {
            assert(s@.take(i + 1).drop_last() =~= s@.take(i as int));
            assert(s@.take(i + 1).last() == s@[i as int]);
            assert(out@ =~= old(out)@ + seq![LBRACK] + spec_real32_list(s@.take(i + 1)));
        }
        i = i + 1;
    }
    out.push(RBRACK);
    proof {
        assert(s@.take(n as int) =~= s@);
        assert(out@ =~= old(out)@ + spec_real32_array(s@));
    }
}

/// An object body with one more field appended when `emit` holds.
pub open spec fn spec_flag_field(b: Seq<u8>, k: Seq<u8>, emit: bool, val: Seq<u8>) -> Seq<u8> {
    if emit {
        append_field(b, spec_key(k) + val)
    } else {
        b
    }
}

/// Appends one object field -- comma, quoted key, pre-rendered value --
/// when `emit` holds; `body_start` marks where the object's body begins
/// in `out`, so an already-begun body gets its separating comma.
fn push_field(out: &mut Vec<u8>, body_start: usize, k: &str, emit: bool, val: &Vec<u8>)
    requires
        body_start <= old(out)@.len(),
    ensures
        final(out)@ == old(out)@.take(body_start as int) + spec_flag_field(
            old(out)@.skip(body_start as int),
            k.spec_bytes(),
            emit,
            val@,
        ),
{
    if emit {
        if out.len() > body_start {
            out.push(COMMA);
        }
        push_key(out, k);
        push_bytes(out, val);
        proof {
            assert(out@ =~= old(out)@.take(body_start as int) + spec_flag_field(
                old(out)@.skip(body_start as int),
                k.spec_bytes(),
                emit,
                val@,
            ));
        }
    } else {
        proof {
            assert(out@ =~= old(out)@.take(body_start as int) + old(out)@.skip(
                body_start as int,
            ));
        }
    }
}

/// The quoted name under which each alpha mode serializes.
pub open spec fn spec_alpha_mode_json(m: AlphaMode) -> Seq<u8> {
    match m {
        AlphaMode::OPAQUE => "\"OPAQUE\"".spec_bytes(),
        AlphaMode::MASK => "\"MASK\"".spec_bytes(),
        AlphaMode::BLEND => "\"BLEND\"".spec_bytes(),
    }
}

/// Appends the quoted name of an alpha mode.
fn push_alpha_mode(out: &mut Vec<u8>, m: AlphaMode)
    ensures
        final(out)@ == old(out)@ + spec_alpha_mode_json(m),
{
    match m {
        AlphaMode::OPAQUE => push_lit(out, "\"OPAQUE\""),
        AlphaMode::MASK => push_lit(out, "\"MASK\""),
        AlphaMode::BLEND => push_lit(out, "\"BLEND\""),
    }
}

/// The quoted name under which each element shape serializes.
pub open spec fn spec_type_json(t: Type) -> Seq<u8> {
    match t {
        Type::SCALAR => "\"SCALAR\"".spec_bytes(),
        Type::VEC2 => "\"VEC2\"".spec_bytes(),
        Type::VEC3 => "\"VEC3\"".spec_bytes(),
        Type::VEC4 => "\"VEC4\"".spec_bytes(),
        Type::MAT2 => "\"MAT2\"".spec_bytes(),
        Type::MAT3 => "\"MAT3\"".spec_bytes(),
        Type::MAT4 => "\"MAT4\"".spec_bytes(),
    }
}

/// Appends the quoted name of an element shape.
fn push_type(out: &mut Vec<u8>, t: Type)
    ensures
        final(out)@ == old(out)@ + spec_type_json(t),
{
    match t {
        Type::SCALAR => push_lit(out, "\"SCALAR\""),
        Type::VEC2 => push_lit(out, "\"VEC2\""),
        Type::VEC3 => push_lit(out, "\"VEC3\""),
        Type::VEC4 => push_lit(out, "\"VEC4\""),
        Type::MAT2 => push_lit(out, "\"MAT2\""),
        Type::MAT3 => push_lit(out, "\"MAT3\""),
        Type::MAT4 => push_lit(out, "\"MAT4\""),
    }
}

/// The fixed-arity array form of one `Translation`.
pub open spec fn spec_translation_json(v: Translation) -> Seq<u8> {
    seq![LBRACK] + v.x.text@ + seq![COMMA] + v.y.text@ + seq![COMMA] + v.z.text@ + seq![RBRACK]
}

/// Appends the fixed-arity array form of one `Translation`.
pub fn push_translation(out: &mut Vec<u8>, v: &Translation)
    ensures
        final(out)@ == old(out)@ + spec_translation_json(*v),
{
    out.push(LBRACK);
    push_bytes(out, &v.x.text);
    out.push(COMMA);
    push_bytes(out, &v.y.text);
    out.push(COMMA);
    push_bytes(out, &v.z.text);
    out.push(RBRACK);
    proof {
        assert(out@ =~= old(out)@ + spec_translation_json(*v));
    }
}

/// The fixed-arity array form of one `Rotation`.
pub open spec fn spec_rotation_json(v: Rotation) -> Seq<u8> {
    seq![LBRACK] + v.x.text@ + seq![COMMA] + v.y.text@ + seq![COMMA] + v.z.text@ + seq![COMMA] + v.w.text@ + seq![RBRACK]
}

/// Appends the fixed-arity array form of one `Rotation`.
pub fn push_rotation(out: &mut Vec<u8>, v: &Rotation)
    ensures
        final(out)@ == old(out)@ + spec_rotation_json(*v),
{
    out.push(LBRACK);
    push_bytes(out, &v.x.text);
    out.push(COMMA);
    push_bytes(out, &v.y.text);
    out.push(COMMA);
    push_bytes(out, &v.z.text);
    out.push(COMMA);
    push_bytes(out, &v.w.text);
    out.push(RBRACK);
    proof {
        assert(out@ =~= old(out)@ + spec_rotation_json(*v));
    }
}

/// The fixed-arity array form of one `Scale`.
pub open spec fn spec_scale_json(v: Scale) -> Seq<u8> {
    seq![LBRACK] + v.x.text@ + seq![COMMA] + v.y.text@ + seq![COMMA] + v.z.text@ + seq![RBRACK]
}

/// Appends the fixed-arity array form of one `Scale`.
pub fn push_scale(out: &mut Vec<u8>, v: &Scale)
    ensures
        final(out)@ == old(out)@ + spec_scale_json(*v),
{
    out.push(LBRACK);
    push_bytes(out, &v.x.text);
    out.push(COMMA);
    push_bytes(out, &v.y.text);
    out.push(COMMA);
    push_bytes(out, &v.z.text);
    out.push(RBRACK);
    proof {
        assert(out@ =~= old(out)@ + spec_scale_json(*v));
    }
}

/// The fixed-arity array form of one `Color4`.
pub open spec fn spec_color4_json(v: Color4) -> Seq<u8> {
    seq![LBRACK] + v.r.text@ + seq![COMMA] + v.g.text@ + seq![COMMA] + v.b.text@ + seq![COMMA] + v.a.text@ + seq![RBRACK]
}

/// Appends the fixed-arity array form of one `Color4`.
pub fn push_color4(out: &mut Vec<u8>, v: &Color4)
    ensures
        final(out)@ == old(out)@ + spec_color4_json(*v),
{
    out.push(LBRACK);
    push_bytes(out, &v.r.text);
    out.push(COMMA);
    push_bytes(out, &v.g.text);
    out.push(COMMA);
    push_bytes(out, &v.b.text);
    out.push(COMMA);
    push_bytes(out, &v.a.text);
    out.push(RBRACK);
    proof {
        assert(out@ =~= old(out)@ + spec_color4_json(*v));
    }
}

/// The fixed-arity array form of one `EmissiveFactor`.
pub open spec fn spec_emissive_json(v: EmissiveFactor) -> Seq<u8> {
    seq![LBRACK] + v.e0.text@ + seq![COMMA] + v.e1.text@ + seq![COMMA] + v.e2.text@ + seq![RBRACK]
}

/// Appends the fixed-arity array form of one `EmissiveFactor`.
pub fn push_emissive(out: &mut Vec<u8>, v: &EmissiveFactor)
    ensures
        final(out)@ == old(out)@ + spec_emissive_json(*v),
{
    out.push(LBRACK);
    push_bytes(out, &v.e0.text);
    out.push(COMMA);
    push_bytes(out, &v.e1.text);
    out.push(COMMA);
    push_bytes(out, &v.e2.text);
    out.push(RBRACK);
    proof {
        assert(out@ =~= old(out)@ + spec_emissive_json(*v));
    }
}

/// The serialized object form of one `Asset`.
pub open spec fn spec_asset_json(v: Asset) -> Seq<u8> {
    let b = Seq::<u8>::empty();
    let b = spec_flag_field(b, "copyright".spec_bytes(), v.copyright@.len() > 0, spec_json_string(v.copyright@));
    let b = spec_flag_field(b, "generator".spec_bytes(), v.generator@.len() > 0, spec_json_string(v.generator@));
    let b = spec_flag_field(b, "version".spec_bytes(), true, spec_json_string(v.version@));
    let b = spec_flag_field(b, "minVersion".spec_bytes(), v.min_version@.len() > 0, spec_json_string(v.min_version@));
    seq![LBRACE] + b + seq![RBRACE]
}

/// Appends the serialized form of one `Asset`.
#[verifier::spinoff_prover]
#[verifier::rlimit(100)]
pub fn push_asset(out: &mut Vec<u8>, v: &Asset)
    ensures
        final(out)@ == old(out)@ + spec_asset_json(*v),
{
    out.push(LBRACE);
    let body_start = out.len();
    let ghost base = out@;
    let ghost b0 = Seq::<u8>::empty();
    let ghost b1 = spec_flag_field(b0, "copyright".spec_bytes(), v.copyright@.len() > 0, spec_json_string(v.copyright@));
    proof {
        assert(out@.take(body_start as int) =~= base);
        assert(out@.skip(body_start as int) =~= b0);
    }
    let emit1 = v.copyright.len() > 0;
    let mut val1: Vec<u8> = Vec::new();
    if emit1 {
        push_json_string(&mut val1, &v.copyright);
    }
    push_field(out, body_start, "copyright", emit1, &val1);
    proof {
        assert(out@ == base + b1);
    }
    let ghost b2 = spec_flag_field(b1, "generator".spec_bytes(), v.generator@.len() > 0, spec_json_string(v.generator@));
    proof {
        assert(out@.take(body_start as int) =~= base);
        assert(out@.skip(body_start as int) =~= b1);
    }
    let emit2 = v.generator.len() > 0;
    let mut val2: Vec<u8> = Vec::new();
    if emit2 {
        push_json_string(&mut val2, &v.generator);
    }
    push_field(out, body_start, "generator", emit2, &val2);
    proof {
        assert(out@ == base + b2);
    }
    let ghost b3 = spec_flag_field(b2, "version".spec_bytes(), true, spec_json_string(v.version@));
    proof {
        assert(out@.take(body_start as int) =~= base);
        assert(out@.skip(body_start as int) =~= b2);
    }
    let emit3 = true;
    let mut val3: Vec<u8> = Vec::new();
    if emit3 {
        push_json_string(&mut val3, &v.version);
    }
    push_field(out, body_start, "version", emit3, &val3);
    proof {
        assert(out@ == base + b3);
    }
    let ghost b4 = spec_flag_field(b3, "minVersion".spec_bytes(), v.min_version@.len() > 0, spec_json_string(v.min_version@));
    proof {
        assert(out@.take(body_start as int) =~= base);
        assert(out@.skip(body_start as int) =~= b3);
    }
    let emit4 = v.min_version.len() > 0;
    let mut val4: Vec<u8> = Vec::new();
    if emit4 {
        push_json_string(&mut val4, &v.min_version);
    }
    push_field(out, body_start, "minVersion", emit4, &val4);
    proof {
        assert(out@ == base + b4);
    }
    out.push(RBRACE);
    proof {
        assert(out@ =~= old(out)@ + spec_asset_json(*v));
    }
}

/// The serialized object form of one `Scene`.
pub open spec fn spec_scene_json(v: Scene) -> Seq<u8> {
    let b = Seq::<u8>::empty();
    let b = spec_flag_field(b, "name".spec_bytes(), v.name@.len() > 0, spec_json_string(v.name@));
    let b = spec_flag_field(b, "nodes".spec_bytes(), v.nodes@.len() > 0, spec_u32_array(v.nodes@));
    seq![LBRACE] + b + seq![RBRACE]
}

/// Appends the serialized form of one `Scene`.
#[verifier::spinoff_prover]
#[verifier::rlimit(100)]
pub fn push_scene(out: &mut Vec<u8>, v: &Scene)
    ensures
        final(out)@ == old(out)@ + spec_scene_json(*v),
{
    out.push(LBRACE);
    let body_start = out.len();
    let ghost base = out@;
    let ghost b0 = Seq::<u8>::empty();
    let ghost b1 = spec_flag_field(b0, "name".spec_bytes(), v.name@.len() > 0, spec_json_string(v.name@));
    proof {
        assert(out@.take(body_start as int) =~= base);
        assert(out@.skip(body_start as int) =~= b0);
    }
    let emit1 = v.name.len() > 0;
    let mut val1: Vec<u8> = Vec::new();
    if emit1 {
        push_json_string(&mut val1, &v.name);
    }
    push_field(out, body_start, "name", emit1, &val1);
    proof {
        assert(out@ == base + b1);
    }
    let ghost b2 = spec_flag_field(b1, "nodes".spec_bytes(), v.nodes@.len() > 0, spec_u32_array(v.nodes@));
    proof {
        assert(out@.take(body_start as int) =~= base);
        assert(out@.skip(body_start as int) =~= b1);
    }
    let emit2 = v.nodes.len() > 0;
    let mut val2: Vec<u8> = Vec::new();
    if emit2 {
        push_u32_array(&mut val2, &v.nodes);
    }
    push_field(out, body_start, "nodes", emit2, &val2);
    proof {
        assert(out@ == base + b2);
    }
    out.push(RBRACE);
    proof {
        assert(out@ =~= old(out)@ + spec_scene_json(*v));
    }
}

/// The comma-joined serialized forms of a list of `Scene` entries.
pub open spec fn spec_scene_list(s: Seq<Scene>) -> Seq<u8>
    decreases s.len(),
{
    if s.len() == 0 {
        Seq::empty()
    } else {
        append_field(spec_scene_list(s.drop_last()), spec_scene_json(s.last()))
    }
}

/// A list of `Scene` entries between brackets.
pub open spec fn spec_scene_array(s: Seq<Scene>) -> Seq<u8> {
    seq![LBRACK] + spec_scene_list(s) + seq![RBRACK]
}

/// Appends a bracketed list of `Scene` entries.
pub fn push_scene_array(out: &mut Vec<u8>, s: &Vec<Scene>)
    ensures
        final(out)@ == old(out)@ + spec_scene_array(s@),
{
    out.push(LBRACK);
    let body_start = out.len();
    let n = s.len();
    let mut i: usize = 0;
    while i < n
        invariant
            n == s@.len(),
            i <= n,
            body_start == old(out)@.len() + 1,
            out@ == old(out)@ + seq![LBRACK] + spec_scene_list(s@.take(i as int)),
        decreases n - i,
    {
        if out.len() > body_start {
            out.push(COMMA);
        }
        push_scene(out, &s[i]);
        proof {
            assert(s@.take(i + 1).drop_last() =~= s@.take(i as int));
            assert(s@.take(i + 1).last() == s@[i as int]);
            assert(out@ =~= old(out)@ + seq![LBRACK] + spec_scene_list(s@.take(i + 1)));
        }
        i = i + 1;
    }
    out.push(RBRACK);
    proof {
        assert(s@.take(n as int) =~= s@);
        assert(out@ =~= old(out)@ + spec_scene_array(s@));
    }
}

/// The serialized object form of one `Node`.
pub open spec fn spec_node_json(v: Node) -> Seq<u8> {
    let b = Seq::<u8>::empty();
    let b = spec_flag_field(b, "name".spec_bytes(), v.name@.len() > 0, spec_json_string(v.name@));
    let b = spec_flag_field(b, "mesh".spec_bytes(), v.mesh is Some, spec_dec_u32(v.mesh->Some_0 as nat));
    let b = spec_flag_field(b, "translation".spec_bytes(), !spec_translation_is_default(&v.t), spec_translation_json(v.t));
    let b = spec_flag_field(b, "rotation".spec_bytes(), !spec_rotation_is_default(&v.r), spec_rotation_json(v.r));
    let b = spec_flag_field(b, "scale".spec_bytes(), !spec_scale_is_default(&v.s), spec_scale_json(v.s));
    let b = spec_flag_field(b, "children".spec_bytes(), v.children@.len() > 0, spec_u32_array(v.children@));
    seq![LBRACE] + b + seq![RBRACE]
}

/// Appends the serialized form of one `Node`.
#[verifier::spinoff_prover]
#[verifier::rlimit(100)]
pub fn push_node(out: &mut Vec<u8>, v: &Node)
    ensures
        final(out)@ == old(out)@ + spec_node_json(*v),
{
    out.push(LBRACE);
    let body_start = out.len();
    let ghost base = out@;
    let ghost b0 = Seq::<u8>::empty();
    let ghost b1 = spec_flag_field(b0, "name".spec_bytes(), v.name@.len() > 0, spec_json_string(v.name@));
    proof {
        assert(out@.take(body_start as int) =~= base);
        assert(out@.skip(body_start as int) =~= b0);
    }
    let emit1 = v.name.len() > 0;
    let mut val1: Vec<u8> = Vec::new();
    if emit1 {
        push_json_string(&mut val1, &v.name);
    }
    push_field(out, body_start, "name", emit1, &val1);
    proof {
        assert(out@ == base + b1);
    }
    let ghost b2 = spec_flag_field(b1, "mesh".spec_bytes(), v.mesh is Some, spec_dec_u32(v.mesh->Some_0 as nat));
    proof {
        assert(out@.take(body_start as int) =~= base);
        assert(out@.skip(body_start as int) =~= b1);
    }
    let emit2 = v.mesh.is_some();
    let mut val2: Vec<u8> = Vec::new();
    if emit2 {
        match v.mesh {
            Some(x) => push_dec_u32(&mut val2, x),
            None => {},
        }
    }
    push_field(out, body_start, "mesh", emit2, &val2);
    proof {
        assert(out@ == base + b2);
    }
    let ghost b3 = spec_flag_field(b2, "translation".spec_bytes(), !spec_translation_is_default(&v.t), spec_translation_json(v.t));
    proof {
        assert(out@.take(body_start as int) =~= base);
        assert(out@.skip(body_start as int) =~= b2);
    }
    let emit3 = !v.t.is_default();
    let mut val3: Vec<u8> = Vec::new();
    if emit3 {
        push_translation(&mut val3, &v.t);
    }
    push_field(out, body_start, "translation", emit3, &val3);
    proof {
        assert(out@ == base + b3);
    }
    let ghost b4 = spec_flag_field(b3, "rotation".spec_bytes(), !spec_rotation_is_default(&v.r), spec_rotation_json(v.r));
    proof {
        assert(out@.take(body_start as int) =~= base);
        assert(out@.skip(body_start as int) =~= b3);
    }
    let emit4 = !v.r.is_default();
    let mut val4: Vec<u8> = Vec::new();
    if emit4 {
        push_rotation(&mut val4, &v.r);
    }
    push_field(out, body_start, "rotation", emit4, &val4);
    proof {
        assert(out@ == base + b4);
    }
    let ghost b5 = spec_flag_field(b4, "scale".spec_bytes(), !spec_scale_is_default(&v.s), spec_scale_json(v.s));
    proof {
        assert(out@.take(body_start as int) =~= base);
        assert(out@.skip(body_start as int) =~= b4);
    }
    let emit5 = !v.s.is_default();
    let mut val5: Vec<u8> = Vec::new();
    if emit5 {
        push_scale(&mut val5, &v.s);
    }
    push_field(out, body_start, "scale", emit5, &val5);
    proof {
        assert(out@ == base + b5);
    }
    let ghost b6 = spec_flag_field(b5, "children".spec_bytes(), v.children@.len() > 0, spec_u32_array(v.children@));
    proof {
        assert(out@.take(body_start as int) =~= base);
        assert(out@.skip(body_start as int) =~= b5);
    }
    let emit6 = v.children.len() > 0;
    let mut val6: Vec<u8> = Vec::new();
    if emit6 {
        push_u32_array(&mut val6, &v.children);
    }
    push_field(out, body_start, "children", emit6, &val6);
    proof {
        assert(out@ == base + b6);
    }
    out.push(RBRACE);
    proof {
        assert(out@ =~= old(out)@ + spec_node_json(*v));
    }
}

/// The comma-joined serialized forms of a list of `Node` entries.
pub open spec fn spec_node_list(s: Seq<Node>) -> Seq<u8>
    decreases s.len(),
{
    if s.len() == 0 {
        Seq::empty()
    } else {
        append_field(spec_node_list(s.drop_last()), spec_node_json(s.last()))
    }
}

/// A list of `Node` entries between brackets.
pub open spec fn spec_node_array(s: Seq<Node>) -> Seq<u8> {
    seq![LBRACK] + spec_node_list(s) + seq![RBRACK]
}

/// Appends a bracketed list of `Node` entries.
pub fn push_node_array(out: &mut Vec<u8>, s: &Vec<Node>)
    ensures
        final(out)@ == old(out)@ + spec_node_array(s@),
{
    out.push(LBRACK);
    let body_start = out.len();
    let n = s.len();
    let mut i: usize = 0;
    while i < n
        invariant
            n == s@.len(),
            i <= n,
            body_start == old(out)@.len() + 1,
            out@ == old(out)@ + seq![LBRACK] + spec_node_list(s@.take(i as int)),
        decreases n - i,
    {
        if out.len() > body_start {
            out.push(COMMA);
        }
        push_node(out, &s[i]);
        proof {
            assert(s@.take(i + 1).drop_last() =~= s@.take(i as int));
            assert(s@.take(i + 1).last() == s@[i as int]);
            assert(out@ =~= old(out)@ + seq![LBRACK] + spec_node_list(s@.take(i + 1)));
        }
        i = i + 1;
    }
    out.push(RBRACK);
    proof {
        assert(s@.take(n as int) =~= s@);
        assert(out@ =~= old(out)@ + spec_node_array(s@));
    }
}

/// The serialized object form of one `PBRMetallicRoughness`.
pub open spec fn spec_pbr_json(v: PBRMetallicRoughness) -> Seq<u8> {
    let b = Seq::<u8>::empty();
    let b = spec_flag_field(b, "baseColorFactor".spec_bytes(), !spec_color4_is_default(&v.base_color_factor), spec_color4_json(v.base_color_factor));
    let b = spec_flag_field(b, "metallicFactor".spec_bytes(), !is_f64_one(v.metallic_factor.bits), v.metallic_factor.text@);
    let b = spec_flag_field(b, "roughnessFactor".spec_bytes(), !is_f64_one(v.roughness_factor.bits), v.roughness_factor.text@);
    seq![LBRACE] + b + seq![RBRACE]
}

/// Appends the serialized form of one `PBRMetallicRoughness`.
#[verifier::spinoff_prover]
#[verifier::rlimit(100)]
pub fn push_pbr(out: &mut Vec<u8>, v: &PBRMetallicRoughness)
    ensures
        final(out)@ == old(out)@ + spec_pbr_json(*v),
{
    out.push(LBRACE);
    let body_start = out.len();
    let ghost base = out@;
    let ghost b0 = Seq::<u8>::empty();
    let ghost b1 = spec_flag_field(b0, "baseColorFactor".spec_bytes(), !spec_color4_is_default(&v.base_color_factor), spec_color4_json(v.base_color_factor));
    proof {
        assert(out@.take(body_start as int) =~= base);
        assert(out@.skip(body_start as int) =~= b0);
    }
    let emit1 = !v.base_color_factor.is_default();
    let mut val1: Vec<u8> = Vec::new();
    if emit1 {
        push_color4(&mut val1, &v.base_color_factor);
    }
    push_field(out, body_start, "baseColorFactor", emit1, &val1);
    proof {
        assert(out@ == base + b1);
    }
    let ghost b2 = spec_flag_field(b1, "metallicFactor".spec_bytes(), !is_f64_one(v.metallic_factor.bits), v.metallic_factor.text@);
    proof {
        assert(out@.take(body_start as int) =~= base);
        assert(out@.skip(body_start as int) =~= b1);
    }
    let emit2 = !is_default_metallic_factor(&v.metallic_factor);
    let mut val2: Vec<u8> = Vec::new();
    if emit2 {
        push_bytes(&mut val2, &v.metallic_factor.text);
    }
    push_field(out, body_start, "metallicFactor", emit2, &val2);
    proof {
        assert(out@ == base + b2);
    }
    let ghost b3 = spec_flag_field(b2, "roughnessFactor".spec_bytes(), !is_f64_one(v.roughness_factor.bits), v.roughness_factor.text@);
    proof {
        assert(out@.take(body_start as int) =~= base);
        assert(out@.skip(body_start as int) =~= b2);
    }
    let emit3 = !is_default_roughness_factor(&v.roughness_factor);
    let mut val3: Vec<u8> = Vec::new();
    if emit3 {
        push_bytes(&mut val3, &v.roughness_factor.text);
    }
    push_field(out, body_start, "roughnessFactor", emit3, &val3);
    proof {
        assert(out@ == base + b3);
    }
    out.push(RBRACE);
    proof {
        assert(out@ =~= old(out)@ + spec_pbr_json(*v));
    }
}

/// The serialized object form of one `Material`.
pub open spec fn spec_material_json(v: Material) -> Seq<u8> {
    let b = Seq::<u8>::empty();
    let b = spec_flag_field(b, "name".spec_bytes(), v.name@.len() > 0, spec_json_string(v.name@));
    let b = spec_flag_field(b, "emissiveFactor".spec_bytes(), !spec_emissive_is_default(&v.emissive_factor), spec_emissive_json(v.emissive_factor));
    let b = spec_flag_field(b, "alphaMode".spec_bytes(), v.alpha_mode != AlphaMode::OPAQUE, spec_alpha_mode_json(v.alpha_mode));
    let b = spec_flag_field(b, "alphaCutoff".spec_bytes(), !is_f64_half(v.alpha_cutoff.bits), v.alpha_cutoff.text@);
    let b = spec_flag_field(b, "doubleSided".spec_bytes(), v.double_sided, "true".spec_bytes());
    let b = spec_flag_field(b, "pbrMetallicRoughness".spec_bytes(), true, spec_pbr_json(v.pbr_metallic_roughness));
    seq![LBRACE] + b + seq![RBRACE]
}

/// Appends the serialized form of one `Material`.
#[verifier::spinoff_prover]
#[verifier::rlimit(100)]
pub fn push_material(out: &mut Vec<u8>, v: &Material)
    ensures
        final(out)@ == old(out)@ + spec_material_json(*v),
{
    out.push(LBRACE);
    let body_start = out.len();
    let ghost base = out@;
    let ghost b0 = Seq::<u8>::empty();
    let ghost b1 = spec_flag_field(b0, "name".spec_bytes(), v.name@.len() > 0, spec_json_string(v.name@));
    proof {
        assert(out@.take(body_start as int) =~= base);
        assert(out@.skip(body_start as int) =~= b0);
    }
    let emit1 = v.name.len() > 0;
    let mut val1: Vec<u8> = Vec::new();
    if emit1 {
        push_json_string(&mut val1, &v.name);
    }
    push_field(out, body_start, "name", emit1, &val1);
    proof {
        assert(out@ == base + b1);
    }
    let ghost b2 = spec_flag_field(b1, "emissiveFactor".spec_bytes(), !spec_emissive_is_default(&v.emissive_factor), spec_emissive_json(v.emissive_factor));
    proof {
        assert(out@.take(body_start as int) =~= base);
        assert(out@.skip(body_start as int) =~= b1);
    }
    let emit2 = !is_default_emissive_factor(&v.emissive_factor);
    let mut val2: Vec<u8> = Vec::new();
    if emit2 {
        push_emissive(&mut val2, &v.emissive_factor);
    }
    push_field(out, body_start, "emissiveFactor", emit2, &val2);
    proof {
        assert(out@ == base + b2);
    }
    let ghost b3 = spec_flag_field(b2, "alphaMode".spec_bytes(), v.alpha_mode != AlphaMode::OPAQUE, spec_alpha_mode_json(v.alpha_mode));
    proof {
        assert(out@.take(body_start as int) =~= base);
        assert(out@.skip(body_start as int) =~= b2);
    }
    let emit3 = !is_default_alpha_mode(&v.alpha_mode);
    let mut val3: Vec<u8> = Vec::new();
    if emit3 {
        push_alpha_mode(&mut val3, v.alpha_mode);
    }
    push_field(out, body_start, "alphaMode", emit3, &val3);
    proof {
        assert(out@ == base + b3);
    }
    let ghost b4 = spec_flag_field(b3, "alphaCutoff".spec_bytes(), !is_f64_half(v.alpha_cutoff.bits), v.alpha_cutoff.text@);
    proof {
        assert(out@.take(body_start as int) =~= base);
        assert(out@.skip(body_start as int) =~= b3);
    }
    let emit4 = !is_default_alpha_cutoff(&v.alpha_cutoff);
    let mut val4: Vec<u8> = Vec::new();
    if emit4 {
        push_bytes(&mut val4, &v.alpha_cutoff.text);
    }
    push_field(out, body_start, "alphaCutoff", emit4, &val4);
    proof {
        assert(out@ == base + b4);
    }
    let ghost b5 = spec_flag_field(b4, "doubleSided".spec_bytes(), v.double_sided, "true".spec_bytes());
    proof {
        assert(out@.take(body_start as int) =~= base);
        assert(out@.skip(body_start as int) =~= b4);
    }
    let emit5 = v.double_sided;
    let mut val5: Vec<u8> = Vec::new();
    if emit5 {
        push_lit(&mut val5, "true");
    }
    push_field(out, body_start, "doubleSided", emit5, &val5);
    proof {
        assert(out@ == base + b5);
    }
    let ghost b6 = spec_flag_field(b5, "pbrMetallicRoughness".spec_bytes(), true, spec_pbr_json(v.pbr_metallic_roughness));
    proof {
        assert(out@.take(body_start as int) =~= base);
        assert(out@.skip(body_start as int) =~= b5);
    }
    let emit6 = true;
    let mut val6: Vec<u8> = Vec::new();
    if emit6 {
        push_pbr(&mut val6, &v.pbr_metallic_roughness);
    }
    push_field(out, body_start, "pbrMetallicRoughness", emit6, &val6);
    proof {
        assert(out@ == base + b6);
    }
    out.push(RBRACE);
    proof {
        assert(out@ =~= old(out)@ + spec_material_json(*v));
    }
}

/// The comma-joined serialized forms of a list of `Material` entries.
pub open spec fn spec_material_list(s: Seq<Material>) -> Seq<u8>
    decreases s.len(),
{
    if s.len() == 0 {
        Seq::empty()
    } else {
        append_field(spec_material_list(s.drop_last()), spec_material_json(s.last()))
    }
}

/// A list of `Material` entries between brackets.
pub open spec fn spec_material_array(s: Seq<Material>) -> Seq<u8> {
    seq![LBRACK] + spec_material_list(s) + seq![RBRACK]
}

/// Appends a bracketed list of `Material` entries.
pub fn push_material_array(out: &mut Vec<u8>, s: &Vec<Material>)
    ensures
        final(out)@ == old(out)@ + spec_material_array(s@),
{
    out.push(LBRACK);
    let body_start = out.len();
    let n = s.len();
    let mut i: usize = 0;
    while i < n
        invariant
            n == s@.len(),
            i <= n,
            body_start == old(out)@.len() + 1,
            out@ == old(out)@ + seq![LBRACK] + spec_material_list(s@.take(i as int)),
        decreases n - i,
    {
        if out.len() > body_start {
            out.push(COMMA);
        }
        push_material(out, &s[i]);
        proof {
            assert(s@.take(i + 1).drop_last() =~= s@.take(i as int));
            assert(s@.take(i + 1).last() == s@[i as int]);
            assert(out@ =~= old(out)@ + seq![LBRACK] + spec_material_list(s@.take(i + 1)));
        }
        i = i + 1;
    }
    out.push(RBRACK);
    proof {
        assert(s@.take(n as int) =~= s@);
        assert(out@ =~= old(out)@ + spec_material_array(s@));
    }
}

/// One stretch of the object body of a `Attributes`, appended to `b`.
pub open spec fn spec_attributes_body_a(b: Seq<u8>, v: Attributes) -> Seq<u8> {
    let b = spec_flag_field(b, "COLOR_0".spec_bytes(), v.color_0 is Some, spec_dec_u32(v.color_0->Some_0 as nat));
    let b = spec_flag_field(b, "JOINTS_0".spec_bytes(), v.joints_0 is Some, spec_dec_u32(v.joints_0->Some_0 as nat));
    let b = spec_flag_field(b, "NORMAL".spec_bytes(), v.normal is Some, spec_dec_u32(v.normal->Some_0 as nat));
    let b = spec_flag_field(b, "POSITION".spec_bytes(), v.position is Some, spec_dec_u32(v.position->Some_0 as nat));
    let b = spec_flag_field(b, "TANGENT".spec_bytes(), v.tangent is Some, spec_dec_u32(v.tangent->Some_0 as nat));
    b
}

#[verifier::spinoff_prover]
#[verifier::rlimit(100)]
fn push_attributes_body_a(out: &mut Vec<u8>, v: &Attributes, body_start: usize)
    requires
        body_start <= old(out)@.len(),
    ensures
        final(out)@ == old(out)@.take(body_start as int) + spec_attributes_body_a(
            old(out)@.skip(body_start as int),
            *v,
        ),
{
    let ghost base = out@.take(body_start as int);
    let ghost b0 = out@.skip(body_start as int);
    let ghost b1 = spec_flag_field(b0, "COLOR_0".spec_bytes(), v.color_0 is Some, spec_dec_u32(v.color_0->Some_0 as nat));
    proof {
        assert(out@.take(body_start as int) =~= base);
        assert(out@.skip(body_start as int) =~= b0);
    }
    let emit1 = v.color_0.is_some();
    let mut val1: Vec<u8> = Vec::new();
    if emit1 {
        match v.color_0 {
            Some(x) => push_dec_u32(&mut val1, x),
            None => {},
        }
    }
    push_field(out, body_start, "COLOR_0", emit1, &val1);
    proof {
        assert(out@ == base + b1);
    }
    let ghost b2 = spec_flag_field(b1, "JOINTS_0".spec_bytes(), v.joints_0 is Some, spec_dec_u32(v.joints_0->Some_0 as nat));
    proof {
        assert(out@.take(body_start as int) =~= base);
        assert(out@.skip(body_start as int) =~= b1);
    }
    let emit2 = v.joints_0.is_some();
    let mut val2: Vec<u8> = Vec::new();
    if emit2 {
        match v.joints_0 {
            Some(x) => push_dec_u32(&mut val2, x),
            None => {},
        }
    }
    push_field(out, body_start, "JOINTS_0", emit2, &val2);
    proof {
        assert(out@ == base + b2);
    }
    let ghost b3 = spec_flag_field(b2, "NORMAL".spec_bytes(), v.normal is Some, spec_dec_u32(v.normal->Some_0 as nat));
    proof {
        assert(out@.take(body_start as int) =~= base);
        assert(out@.skip(body_start as int) =~= b2);
    }
    let emit3 = v.normal.is_some();
    let mut val3: Vec<u8> = Vec::new();
    if emit3 {
        match v.normal {
            Some(x) => push_dec_u32(&mut val3, x),
            None => {},
        }
    }
    push_field(out, body_start, "NORMAL", emit3, &val3);
    proof {
        assert(out@ == base + b3);
    }
    let ghost b4 = spec_flag_field(b3, "POSITION".spec_bytes(), v.position is Some, spec_dec_u32(v.position->Some_0 as nat));
    proof {
        assert(out@.take(body_start as int) =~= base);
        assert(out@.skip(body_start as int) =~= b3);
    }
    let emit4 = v.position.is_some();
    let mut val4: Vec<u8> = Vec::new();
    if emit4 {
        match v.position {
            Some(x) => push_dec_u32(&mut val4, x),
            None => {},
        }
    }
    push_field(out, body_start, "POSITION", emit4, &val4);
    proof {
        assert(out@ == base + b4);
    }
    let ghost b5 = spec_flag_field(b4, "TANGENT".spec_bytes(), v.tangent is Some, spec_dec_u32(v.tangent->Some_0 as nat));
    proof {
        assert(out@.take(body_start as int) =~= base);
        assert(out@.skip(body_start as int) =~= b4);
    }
    let emit5 = v.tangent.is_some();
    let mut val5: Vec<u8> = Vec::new();
    if emit5 {
        match v.tangent {
            Some(x) => push_dec_u32(&mut val5, x),
            None => {},
        }
    }
    push_field(out, body_start, "TANGENT", emit5, &val5);
    proof {
        assert(out@ == base + b5);
    }
}

/// One stretch of the object body of a `Attributes`, appended to `b`.
pub open spec fn spec_attributes_body_b(b: Seq<u8>, v: Attributes) -> Seq<u8> {
    let b = spec_flag_field(b, "TEXCOORD_0".spec_bytes(), v.texcoord_0 is Some, spec_dec_u32(v.texcoord_0->Some_0 as nat));
    let b = spec_flag_field(b, "TEXCOORD_1".spec_bytes(), v.texcoord_1 is Some, spec_dec_u32(v.texcoord_1->Some_0 as nat));
    let b = spec_flag_field(b, "TEXCOORD_2".spec_bytes(), v.texcoord_2 is Some, spec_dec_u32(v.texcoord_2->Some_0 as nat));
    let b = spec_flag_field(b, "TEXCOORD_3".spec_bytes(), v.texcoord_3 is Some, spec_dec_u32(v.texcoord_3->Some_0 as nat));
    let b = spec_flag_field(b, "WEIGHTS_0".spec_bytes(), v.weights_0 is Some, spec_dec_u32(v.weights_0->Some_0 as nat));
    b
}

#[verifier::spinoff_prover]
#[verifier::rlimit(100)]
fn push_attributes_body_b(out: &mut Vec<u8>, v: &Attributes, body_start: usize)
    requires
        body_start <= old(out)@.len(),
    ensures
        final(out)@ == old(out)@.take(body_start as int) + spec_attributes_body_b(
            old(out)@.skip(body_start as int),
            *v,
        ),
{
    let ghost base = out@.take(body_start as int);
    let ghost b0 = out@.skip(body_start as int);
    let ghost b1 = spec_flag_field(b0, "TEXCOORD_0".spec_bytes(), v.texcoord_0 is Some, spec_dec_u32(v.texcoord_0->Some_0 as nat));
    proof {
        assert(out@.take(body_start as int) =~= base);
        assert(out@.skip(body_start as int) =~= b0);
    }
    let emit1 = v.texcoord_0.is_some();
    let mut val1: Vec<u8> = Vec::new();
    if emit1 {
        match v.texcoord_0 {
            Some(x) => push_dec_u32(&mut val1, x),
            None => {},
        }
    }
    push_field(out, body_start, "TEXCOORD_0", emit1, &val1);
    proof {
        assert(out@ == base + b1);
    }
    let ghost b2 = spec_flag_field(b1, "TEXCOORD_1".spec_bytes(), v.texcoord_1 is Some, spec_dec_u32(v.texcoord_1->Some_0 as nat));
    proof {
        assert(out@.take(body_start as int) =~= base);
        assert(out@.skip(body_start as int) =~= b1);
    }
    let emit2 = v.texcoord_1.is_some();
    let mut val2: Vec<u8> = Vec::new();
    if emit2 {
        match v.texcoord_1 {
            Some(x) => push_dec_u32(&mut val2, x),
            None => {},
        }
    }
    push_field(out, body_start, "TEXCOORD_1", emit2, &val2);
    proof {
        assert(out@ == base + b2);
    }
    let ghost b3 = spec_flag_field(b2, "TEXCOORD_2".spec_bytes(), v.texcoord_2 is Some, spec_dec_u32(v.texcoord_2->Some_0 as nat));
    proof {
        assert(out@.take(body_start as int) =~= base);
        assert(out@.skip(body_start as int) =~= b2);
    }
    let emit3 = v.texcoord_2.is_some();
    let mut val3: Vec<u8> = Vec::new();
    if emit3 {
        match v.texcoord_2 {
            Some(x) => push_dec_u32(&mut val3, x),
            None => {},
        }
    }
    push_field(out, body_start, "TEXCOORD_2", emit3, &val3);
    proof {
        assert(out@ == base + b3);
    }
    let ghost b4 = spec_flag_field(b3, "TEXCOORD_3".spec_bytes(), v.texcoord_3 is Some, spec_dec_u32(v.texcoord_3->Some_0 as nat));
    proof {
        assert(out@.take(body_start as int) =~= base);
        assert(out@.skip(body_start as int) =~= b3);
    }
    let emit4 = v.texcoord_3.is_some();
    let mut val4: Vec<u8> = Vec::new();
    if emit4 {
        match v.texcoord_3 {
            Some(x) => push_dec_u32(&mut val4, x),
            None => {},
        }
    }
    push_field(out, body_start, "TEXCOORD_3", emit4, &val4);
    proof {
        assert(out@ == base + b4);
    }
    let ghost b5 = spec_flag_field(b4, "WEIGHTS_0".spec_bytes(), v.weights_0 is Some, spec_dec_u32(v.weights_0->Some_0 as nat));
    proof {
        assert(out@.take(body_start as int) =~= base);
        assert(out@.skip(body_start as int) =~= b4);
    }
    let emit5 = v.weights_0.is_some();
    let mut val5: Vec<u8> = Vec::new();
    if emit5 {
        match v.weights_0 {
            Some(x) => push_dec_u32(&mut val5, x),
            None => {},
        }
    }
    push_field(out, body_start, "WEIGHTS_0", emit5, &val5);
    proof {
        assert(out@ == base + b5);
    }
}

/// The serialized object form of one `Attributes`.
pub open spec fn spec_attributes_json(v: Attributes) -> Seq<u8> {
    seq![LBRACE] + spec_attributes_body_b(spec_attributes_body_a(Seq::empty(), v), v) + seq![RBRACE]
}

/// Appends the serialized form of one `Attributes`.
#[verifier::spinoff_prover]
#[verifier::rlimit(100)]
pub fn push_attributes(out: &mut Vec<u8>, v: &Attributes)
    ensures
        final(out)@ == old(out)@ + spec_attributes_json(*v),
{
    out.push(LBRACE);
    let body_start = out.len();
    let ghost base = out@;
    proof {
        assert(out@.take(body_start as int) =~= base);
        assert(out@.skip(body_start as int) =~= Seq::<u8>::empty());
    }
    push_attributes_body_a(out, v, body_start);
    proof {
        assert(out@.take(body_start as int) =~= base);
        assert(out@.skip(body_start as int) =~= spec_attributes_body_a(Seq::empty(), *v));
    }
    push_attributes_body_b(out, v, body_start);
    out.push(RBRACE);
    proof {
        assert(out@ =~= old(out)@ + spec_attributes_json(*v));
    }
}

/// The serialized object form of one `MeshPrimitive`.
pub open spec fn spec_primitive_json(v: MeshPrimitive) -> Seq<u8> {
    let b = Seq::<u8>::empty();
    let b = spec_flag_field(b, "attributes".spec_bytes(), true, spec_attributes_json(v.attributes));
    let b = spec_flag_field(b, "indices".spec_bytes(), v.indices is Some, spec_dec_u32(v.indices->Some_0 as nat));
    let b = spec_flag_field(b, "material".spec_bytes(), v.material is Some, spec_dec_u32(v.material->Some_0 as nat));
    let b = spec_flag_field(b, "mode".spec_bytes(), v.mode != Mode::Triangles, spec_dec_u32(v.mode.spec_code() as nat));
    seq![LBRACE] + b + seq![RBRACE]
}

/// Appends the serialized form of one `MeshPrimitive`.
#[verifier::spinoff_prover]
#[verifier::rlimit(100)]
pub fn push_primitive(out: &mut Vec<u8>, v: &MeshPrimitive)
    ensures
        final(out)@ == old(out)@ + spec_primitive_json(*v),
{
    out.push(LBRACE);
    let body_start = out.len();
    let ghost base = out@;
    let ghost b0 = Seq::<u8>::empty();
    let ghost b1 = spec_flag_field(b0, "attributes".spec_bytes(), true, spec_attributes_json(v.attributes));
    proof {
        assert(out@.take(body_start as int) =~= base);
        assert(out@.skip(body_start as int) =~= b0);
    }
    let emit1 = true;
    let mut val1: Vec<u8> = Vec::new();
    if emit1 {
        push_attributes(&mut val1, &v.attributes);
    }
    push_field(out, body_start, "attributes", emit1, &val1);
    proof {
        assert(out@ == base + b1);
    }
    let ghost b2 = spec_flag_field(b1, "indices".spec_bytes(), v.indices is Some, spec_dec_u32(v.indices->Some_0 as nat));
    proof {
        assert(out@.take(body_start as int) =~= base);
        assert(out@.skip(body_start as int) =~= b1);
    }
    let emit2 = v.indices.is_some();
    let mut val2: Vec<u8> = Vec::new();
    if emit2 {
        match v.indices {
            Some(x) => push_dec_u32(&mut val2, x),
            None => {},
        }
    }
    push_field(out, body_start, "indices", emit2, &val2);
    proof {
        assert(out@ == base + b2);
    }
    let ghost b3 = spec_flag_field(b2, "material".spec_bytes(), v.material is Some, spec_dec_u32(v.material->Some_0 as nat));
    proof {
        assert(out@.take(body_start as int) =~= base);
        assert(out@.skip(body_start as int) =~= b2);
    }
    let emit3 = v.material.is_some();
    let mut val3: Vec<u8> = Vec::new();
    if emit3 {
        match v.material {
            Some(x) => push_dec_u32(&mut val3, x),
            None => {},
        }
    }
    push_field(out, body_start, "material", emit3, &val3);
    proof {
        assert(out@ == base + b3);
    }
    let ghost b4 = spec_flag_field(b3, "mode".spec_bytes(), v.mode != Mode::Triangles, spec_dec_u32(v.mode.spec_code() as nat));
    proof {
        assert(out@.take(body_start as int) =~= base);
        assert(out@.skip(body_start as int) =~= b3);
    }
    let emit4 = !is_default_mode(&v.mode);
    let mut val4: Vec<u8> = Vec::new();
    if emit4 {
        push_dec_u32(&mut val4, v.mode.code());
    }
    push_field(out, body_start, "mode", emit4, &val4);
    proof {
        assert(out@ == base + b4);
    }
    out.push(RBRACE);
    proof {
        assert(out@ =~= old(out)@ + spec_primitive_json(*v));
    }
}

/// The comma-joined serialized forms of a list of `MeshPrimitive` entries.
pub open spec fn spec_primitive_list(s: Seq<MeshPrimitive>) -> Seq<u8>
    decreases s.len(),
{
    if s.len() == 0 {
        Seq::empty()
    } else {
        append_field(spec_primitive_list(s.drop_last()), spec_primitive_json(s.last()))
    }
}

/// A list of `MeshPrimitive` entries between brackets.
pub open spec fn spec_primitive_array(s: Seq<MeshPrimitive>) -> Seq<u8> {
    seq![LBRACK] + spec_primitive_list(s) + seq![RBRACK]
}

/// Appends a bracketed list of `MeshPrimitive` entries.
pub fn push_primitive_array(out: &mut Vec<u8>, s: &Vec<MeshPrimitive>)
    ensures
        final(out)@ == old(out)@ + spec_primitive_array(s@),
{
    out.push(LBRACK);
    let body_start = out.len();
    let n = s.len();
    let mut i: usize = 0;
    while i < n
        invariant
            n == s@.len(),
            i <= n,
            body_start == old(out)@.len() + 1,
            out@ == old(out)@ + seq![LBRACK] + spec_primitive_list(s@.take(i as int)),
        decreases n - i,
    {
        if out.len() > body_start {
            out.push(COMMA);
        }
        push_primitive(out, &s[i]);
        proof {
            assert(s@.take(i + 1).drop_last() =~= s@.take(i as int));
            assert(s@.take(i + 1).last() == s@[i as int]);
            assert(out@ =~= old(out)@ + seq![LBRACK] + spec_primitive_list(s@.take(i + 1)));
        }
        i = i + 1;
    }
    out.push(RBRACK);
    proof {
        assert(s@.take(n as int) =~= s@);
        assert(out@ =~= old(out)@ + spec_primitive_array(s@));
    }
}

/// The serialized object form of one `Mesh`.
pub open spec fn spec_mesh_json(v: Mesh) -> Seq<u8> {
    let b = Seq::<u8>::empty();
    let b = spec_flag_field(b, "name".spec_bytes(), v.name@.len() > 0, spec_json_string(v.name@));
    let b = spec_flag_field(b, "primitives".spec_bytes(), true, spec_primitive_array(v.primitives@));
    let b = spec_flag_field(b, "weights".spec_bytes(), v.weights@.len() > 0, spec_real_array(v.weights@));
    seq![LBRACE] + b + seq![RBRACE]
}

/// Appends the serialized form of one `Mesh`.
#[verifier::spinoff_prover]
#[verifier::rlimit(100)]
pub fn push_mesh(out: &mut Vec<u8>, v: &Mesh)
    ensures
        final(out)@ == old(out)@ + spec_mesh_json(*v),
{
    out.push(LBRACE);
    let body_start = out.len();
    let ghost base = out@;
    let ghost b0 = Seq::<u8>::empty();
    let ghost b1 = spec_flag_field(b0, "name".spec_bytes(), v.name@.len() > 0, spec_json_string(v.name@));
    proof {
        assert(out@.take(body_start as int) =~= base);
        assert(out@.skip(body_start as int) =~= b0);
    }
    let emit1 = v.name.len() > 0;
    let mut val1: Vec<u8> = Vec::new();
    if emit1 {
        push_json_string(&mut val1, &v.name);
    }
    push_field(out, body_start, "name", emit1, &val1);
    proof {
        assert(out@ == base + b1);
    }
    let ghost b2 = spec_flag_field(b1, "primitives".spec_bytes(), true, spec_primitive_array(v.primitives@));
    proof {
        assert(out@.take(body_start as int) =~= base);
        assert(out@.skip(body_start as int) =~= b1);
    }
    let emit2 = true;
    let mut val2: Vec<u8> = Vec::new();
    if emit2 {
        push_primitive_array(&mut val2, &v.primitives);
    }
    push_field(out, body_start, "primitives", emit2, &val2);
    proof {
        assert(out@ == base + b2);
    }
    let ghost b3 = spec_flag_field(b2, "weights".spec_bytes(), v.weights@.len() > 0, spec_real_array(v.weights@));
    proof {
        assert(out@.take(body_start as int) =~= base);
        assert(out@.skip(body_start as int) =~= b2);
    }
    let emit3 = v.weights.len() > 0;
    let mut val3: Vec<u8> = Vec::new();
    if emit3 {
        push_real_array(&mut val3, &v.weights);
    }
    push_field(out, body_start, "weights", emit3, &val3);
    proof {
        assert(out@ == base + b3);
    }
    out.push(RBRACE);
    proof {
        assert(out@ =~= old(out)@ + spec_mesh_json(*v));
    }
}

/// The comma-joined serialized forms of a list of `Mesh` entries.
pub open spec fn spec_mesh_list(s: Seq<Mesh>) -> Seq<u8>
    decreases s.len(),
{
    if s.len() == 0 {
        Seq::empty()
    } else {
        append_field(spec_mesh_list(s.drop_last()), spec_mesh_json(s.last()))
    }
}

/// A list of `Mesh` entries between brackets.
pub open spec fn spec_mesh_array(s: Seq<Mesh>) -> Seq<u8> {
    seq![LBRACK] + spec_mesh_list(s) + seq![RBRACK]
}

/// Appends a bracketed list of `Mesh` entries.
pub fn push_mesh_array(out: &mut Vec<u8>, s: &Vec<Mesh>)
    ensures
        final(out)@ == old(out)@ + spec_mesh_array(s@),
{
    out.push(LBRACK);
    let body_start = out.len();
    let n = s.len();
    let mut i: usize = 0;
    while i < n
        invariant
            n == s@.len(),
            i <= n,
            body_start == old(out)@.len() + 1,
            out@ == old(out)@ + seq![LBRACK] + spec_mesh_list(s@.take(i as int)),
        decreases n - i,
    {
        if out.len() > body_start {
            out.push(COMMA);
        }
        push_mesh(out, &s[i]);
        proof {
            assert(s@.take(i + 1).drop_last() =~= s@.take(i as int));
            assert(s@.take(i + 1).last() == s@[i as int]);
            assert(out@ =~= old(out)@ + seq![LBRACK] + spec_mesh_list(s@.take(i + 1)));
        }
        i = i + 1;
    }
    out.push(RBRACK);
    proof {
        assert(s@.take(n as int) =~= s@);
        assert(out@ =~= old(out)@ + spec_mesh_array(s@));
    }
}

/// The serialized object form of one `Accessor`.
pub open spec fn spec_accessor_json(v: Accessor) -> Seq<u8> {
    let b = Seq::<u8>::empty();
    let b = spec_flag_field(b, "name".spec_bytes(), v.name@.len() > 0, spec_json_string(v.name@));
    let b = spec_flag_field(b, "bufferView".spec_bytes(), v.buffer_view is Some, spec_dec_u32(v.buffer_view->Some_0 as nat));
    let b = spec_flag_field(b, "byteOffset".spec_bytes(), v.byte_offset != 0, spec_dec_u32(v.byte_offset as nat));
    let b = spec_flag_field(b, "componentType".spec_bytes(), true, spec_dec_u32(v.component_type.spec_code() as nat));
    let b = spec_flag_field(b, "normalized".spec_bytes(), v.normalized, "true".spec_bytes());
    let b = spec_flag_field(b, "count".spec_bytes(), true, spec_dec_u32(v.count as nat));
    let b = spec_flag_field(b, "type".spec_bytes(), true, spec_type_json(v.type_));
    let b = spec_flag_field(b, "max".spec_bytes(), v.max@.len() > 0, spec_real32_array(v.max@));
    let b = spec_flag_field(b, "min".spec_bytes(), v.min@.len() > 0, spec_real32_array(v.min@));
    seq![LBRACE] + b + seq![RBRACE]
}

/// Appends the serialized form of one `Accessor`.
#[verifier::spinoff_prover]
#[verifier::rlimit(100)]
pub fn push_accessor(out: &mut Vec<u8>, v: &Accessor)
    ensures
        final(out)@ == old(out)@ + spec_accessor_json(*v),
{
    out.push(LBRACE);
    let body_start = out.len();
    let ghost base = out@;
    let ghost b0 = Seq::<u8>::empty();
    let ghost b1 = spec_flag_field(b0, "name".spec_bytes(), v.name@.len() > 0, spec_json_string(v.name@));
    proof {
        assert(out@.take(body_start as int) =~= base);
        assert(out@.skip(body_start as int) =~= b0);
    }
    let emit1 = v.name.len() > 0;
    let mut val1: Vec<u8> = Vec::new();
    if emit1 {
        push_json_string(&mut val1, &v.name);
    }
    push_field(out, body_start, "name", emit1, &val1);
    proof {
        assert(out@ == base + b1);
    }
    let ghost b2 = spec_flag_field(b1, "bufferView".spec_bytes(), v.buffer_view is Some, spec_dec_u32(v.buffer_view->Some_0 as nat));
    proof {
        assert(out@.take(body_start as int) =~= base);
        assert(out@.skip(body_start as int) =~= b1);
    }
    let emit2 = v.buffer_view.is_some();
    let mut val2: Vec<u8> = Vec::new();
    if emit2 {
        match v.buffer_view {
            Some(x) => push_dec_u32(&mut val2, x),
            None => {},
        }
    }
    push_field(out, body_start, "bufferView", emit2, &val2);
    proof {
        assert(out@ == base + b2);
    }
    let ghost b3 = spec_flag_field(b2, "byteOffset".spec_bytes(), v.byte_offset != 0, spec_dec_u32(v.byte_offset as nat));
    proof {
        assert(out@.take(body_start as int) =~= base);
        assert(out@.skip(body_start as int) =~= b2);
    }
    let emit3 = !is_default_byte_offset(&v.byte_offset);
    let mut val3: Vec<u8> = Vec::new();
    if emit3 {
        push_dec_u32(&mut val3, v.byte_offset);
    }
    push_field(out, body_start, "byteOffset", emit3, &val3);
    proof {
        assert(out@ == base + b3);
    }
    let ghost b4 = spec_flag_field(b3, "componentType".spec_bytes(), true, spec_dec_u32(v.component_type.spec_code() as nat));
    proof {
        assert(out@.take(body_start as int) =~= base);
        assert(out@.skip(body_start as int) =~= b3);
    }
    let emit4 = true;
    let mut val4: Vec<u8> = Vec::new();
    if emit4 {
        push_dec_u32(&mut val4, v.component_type.code());
    }
    push_field(out, body_start, "componentType", emit4, &val4);
    proof {
        assert(out@ == base + b4);
    }
    let ghost b5 = spec_flag_field(b4, "normalized".spec_bytes(), v.normalized, "true".spec_bytes());
    proof {
        assert(out@.take(body_start as int) =~= base);
        assert(out@.skip(body_start as int) =~= b4);
    }
    let emit5 = v.normalized;
    let mut val5: Vec<u8> = Vec::new();
    if emit5 {
        push_lit(&mut val5, "true");
    }
    push_field(out, body_start, "normalized", emit5, &val5);
    proof {
        assert(out@ == base + b5);
    }
    let ghost b6 = spec_flag_field(b5, "count".spec_bytes(), true, spec_dec_u32(v.count as nat));
    proof {
        assert(out@.take(body_start as int) =~= base);
        assert(out@.skip(body_start as int) =~= b5);
    }
    let emit6 = true;
    let mut val6: Vec<u8> = Vec::new();
    if emit6 {
        push_dec_u32(&mut val6, v.count);
    }
    push_field(out, body_start, "count", emit6, &val6);
    proof {
        assert(out@ == base + b6);
    }
    let ghost b7 = spec_flag_field(b6, "type".spec_bytes(), true, spec_type_json(v.type_));
    proof {
        assert(out@.take(body_start as int) =~= base);
        assert(out@.skip(body_start as int) =~= b6);
    }
    let emit7 = true;
    let mut val7: Vec<u8> = Vec::new();
    if emit7 {
        push_type(&mut val7, v.type_);
    }
    push_field(out, body_start, "type", emit7, &val7);
    proof {
        assert(out@ == base + b7);
    }
    let ghost b8 = spec_flag_field(b7, "max".spec_bytes(), v.max@.len() > 0, spec_real32_array(v.max@));
    proof {
        assert(out@.take(body_start as int) =~= base);
        assert(out@.skip(body_start as int) =~= b7);
    }
    let emit8 = v.max.len() > 0;
    let mut val8: Vec<u8> = Vec::new();
    if emit8 {
        push_real32_array(&mut val8, &v.max);
    }
    push_field(out, body_start, "max", emit8, &val8);
    proof {
        assert(out@ == base + b8);
    }
    let ghost b9 = spec_flag_field(b8, "min".spec_bytes(), v.min@.len() > 0, spec_real32_array(v.min@));
    proof {
        assert(out@.take(body_start as int) =~= base);
        assert(out@.skip(body_start as int) =~= b8);
    }
    let emit9 = v.min.len() > 0;
    let mut val9: Vec<u8> = Vec::new();
    if emit9 {
        push_real32_array(&mut val9, &v.min);
    }
    push_field(out, body_start, "min", emit9, &val9);
    proof {
        assert(out@ == base + b9);
    }
    out.push(RBRACE);
    proof {
        assert(out@ =~= old(out)@ + spec_accessor_json(*v));
    }
}

/// The comma-joined serialized forms of a list of `Accessor` entries.
pub open spec fn spec_accessor_list(s: Seq<Accessor>) -> Seq<u8>
    decreases s.len(),
{
    if s.len() == 0 {
        Seq::empty()
    } else {
        append_field(spec_accessor_list(s.drop_last()), spec_accessor_json(s.last()))
    }
}

/// A list of `Accessor` entries between brackets.
pub open spec fn spec_accessor_array(s: Seq<Accessor>) -> Seq<u8> {
    seq![LBRACK] + spec_accessor_list(s) + seq![RBRACK]
}

/// Appends a bracketed list of `Accessor` entries.
pub fn push_accessor_array(out: &mut Vec<u8>, s: &Vec<Accessor>)
    ensures
        final(out)@ == old(out)@ + spec_accessor_array(s@),
{
    out.push(LBRACK);
    let body_start = out.len();
    let n = s.len();
    let mut i: usize = 0;
    while i < n
        invariant
            n == s@.len(),
            i <= n,
            body_start == old(out)@.len() + 1,
            out@ == old(out)@ + seq![LBRACK] + spec_accessor_list(s@.take(i as int)),
        decreases n - i,
    {
        if out.len() > body_start {
            out.push(COMMA);
        }
        push_accessor(out, &s[i]);
        proof {
            assert(s@.take(i + 1).drop_last() =~= s@.take(i as int));
            assert(s@.take(i + 1).last() == s@[i as int]);
            assert(out@ =~= old(out)@ + seq![LBRACK] + spec_accessor_list(s@.take(i + 1)));
        }
        i = i + 1;
    }
    out.push(RBRACK);
    proof {
        assert(s@.take(n as int) =~= s@);
        assert(out@ =~= old(out)@ + spec_accessor_array(s@));
    }
}

/// The serialized object form of one `BufferView`.
pub open spec fn spec_buffer_view_json(v: BufferView) -> Seq<u8> {
    let b = Seq::<u8>::empty();
    let b = spec_flag_field(b, "name".spec_bytes(), v.name@.len() > 0, spec_json_string(v.name@));
    let b = spec_flag_field(b, "buffer".spec_bytes(), true, spec_dec_u32(v.buffer as nat));
    let b = spec_flag_field(b, "byteLength".spec_bytes(), true, spec_dec_u32(v.byte_length as nat));
    let b = spec_flag_field(b, "byteOffset".spec_bytes(), true, spec_dec_u32(v.byte_offset as nat));
    let b = spec_flag_field(b, "byteStride".spec_bytes(), v.byte_stride is Some, spec_dec_u32(v.byte_stride->Some_0 as nat));
    let b = spec_flag_field(b, "target".spec_bytes(), v.target is Some, spec_dec_u32(v.target->Some_0.spec_code() as nat));
    seq![LBRACE] + b + seq![RBRACE]
}

/// Appends the serialized form of one `BufferView`.
#[verifier::spinoff_prover]
#[verifier::rlimit(100)]
pub fn push_buffer_view(out: &mut Vec<u8>, v: &BufferView)
    ensures
        final(out)@ == old(out)@ + spec_buffer_view_json(*v),
{
    out.push(LBRACE);
    let body_start = out.len();
    let ghost base = out@;
    let ghost b0 = Seq::<u8>::empty();
    let ghost b1 = spec_flag_field(b0, "name".spec_bytes(), v.name@.len() > 0, spec_json_string(v.name@));
    proof {
        assert(out@.take(body_start as int) =~= base);
        assert(out@.skip(body_start as int) =~= b0);
    }
    let emit1 = v.name.len() > 0;
    let mut val1: Vec<u8> = Vec::new();
    if emit1 {
        push_json_string(&mut val1, &v.name);
    }
    push_field(out, body_start, "name", emit1, &val1);
    proof {
        assert(out@ == base + b1);
    }
    let ghost b2 = spec_flag_field(b1, "buffer".spec_bytes(), true, spec_dec_u32(v.buffer as nat));
    proof {
        assert(out@.take(body_start as int) =~= base);
        assert(out@.skip(body_start as int) =~= b1);
    }
    let emit2 = true;
    let mut val2: Vec<u8> = Vec::new();
    if emit2 {
        push_dec_u32(&mut val2, v.buffer);
    }
    push_field(out, body_start, "buffer", emit2, &val2);
    proof {
        assert(out@ == base + b2);
    }
    let ghost b3 = spec_flag_field(b2, "byteLength".spec_bytes(), true, spec_dec_u32(v.byte_length as nat));
    proof {
        assert(out@.take(body_start as int) =~= base);
        assert(out@.skip(body_start as int) =~= b2);
    }
    let emit3 = true;
    let mut val3: Vec<u8> = Vec::new();
    if emit3 {
        push_dec_u32(&mut val3, v.byte_length);
    }
    push_field(out, body_start, "byteLength", emit3, &val3);
    proof {
        assert(out@ == base + b3);
    }
    let ghost b4 = spec_flag_field(b3, "byteOffset".spec_bytes(), true, spec_dec_u32(v.byte_offset as nat));
    proof {
        assert(out@.take(body_start as int) =~= base);
        assert(out@.skip(body_start as int) =~= b3);
    }
    let emit4 = true;
    let mut val4: Vec<u8> = Vec::new();
    if emit4 {
        push_dec_u32(&mut val4, v.byte_offset);
    }
    push_field(out, body_start, "byteOffset", emit4, &val4);
    proof {
        assert(out@ == base + b4);
    }
    let ghost b5 = spec_flag_field(b4, "byteStride".spec_bytes(), v.byte_stride is Some, spec_dec_u32(v.byte_stride->Some_0 as nat));
    proof {
        assert(out@.take(body_start as int) =~= base);
        assert(out@.skip(body_start as int) =~= b4);
    }
    let emit5 = v.byte_stride.is_some();
    let mut val5: Vec<u8> = Vec::new();
    if emit5 {
        match v.byte_stride {
            Some(x) => push_dec_u32(&mut val5, x),
            None => {},
        }
    }
    push_field(out, body_start, "byteStride", emit5, &val5);
    proof {
        assert(out@ == base + b5);
    }
    let ghost b6 = spec_flag_field(b5, "target".spec_bytes(), v.target is Some, spec_dec_u32(v.target->Some_0.spec_code() as nat));
    proof {
        assert(out@.take(body_start as int) =~= base);
        assert(out@.skip(body_start as int) =~= b5);
    }
    let emit6 = v.target.is_some();
    let mut val6: Vec<u8> = Vec::new();
    if emit6 {
        match v.target {
            Some(t) => push_dec_u32(&mut val6, t.code()),
            None => {},
        }
    }
    push_field(out, body_start, "target", emit6, &val6);
    proof {
        assert(out@ == base + b6);
    }
    out.push(RBRACE);
    proof {
        assert(out@ =~= old(out)@ + spec_buffer_view_json(*v));
    }
}

/// The comma-joined serialized forms of a list of `BufferView` entries.
pub open spec fn spec_buffer_view_list(s: Seq<BufferView>) -> Seq<u8>
    decreases s.len(),
{
    if s.len() == 0 {
        Seq::empty()
    } else {
        append_field(spec_buffer_view_list(s.drop_last()), spec_buffer_view_json(s.last()))
    }
}

/// A list of `BufferView` entries between brackets.
pub open spec fn spec_buffer_view_array(s: Seq<BufferView>) -> Seq<u8> {
    seq![LBRACK] + spec_buffer_view_list(s) + seq![RBRACK]
}

/// Appends a bracketed list of `BufferView` entries.
pub fn push_buffer_view_array(out: &mut Vec<u8>, s: &Vec<BufferView>)
    ensures
        final(out)@ == old(out)@ + spec_buffer_view_array(s@),
{
    out.push(LBRACK);
    let body_start = out.len();
    let n = s.len();
    let mut i: usize = 0;
    while i < n
        invariant
            n == s@.len(),
            i <= n,
            body_start == old(out)@.len() + 1,
            out@ == old(out)@ + seq![LBRACK] + spec_buffer_view_list(s@.take(i as int)),
        decreases n - i,
    {
        if out.len() > body_start {
            out.push(COMMA);
        }
        push_buffer_view(out, &s[i]);
        proof {
            assert(s@.take(i + 1).drop_last() =~= s@.take(i as int));
            assert(s@.take(i + 1).last() == s@[i as int]);
            assert(out@ =~= old(out)@ + seq![LBRACK] + spec_buffer_view_list(s@.take(i + 1)));
        }
        i = i + 1;
    }
    out.push(RBRACK);
    proof {
        assert(s@.take(n as int) =~= s@);
        assert(out@ =~= old(out)@ + spec_buffer_view_array(s@));
    }
}

/// The serialized object form of one `Buffer`.
pub open spec fn spec_buffer_json(v: Buffer) -> Seq<u8> {
    let b = Seq::<u8>::empty();
    let b = spec_flag_field(b, "name".spec_bytes(), v.name@.len() > 0, spec_json_string(v.name@));
    let b = spec_flag_field(b, "byteLength".spec_bytes(), true, spec_dec_u32(v.byte_length as nat));
    let b = spec_flag_field(b, "uri".spec_bytes(), v.uri@.len() > 0, spec_json_string(v.uri@));
    seq![LBRACE] + b + seq![RBRACE]
}

/// Appends the serialized form of one `Buffer`.
#[verifier::spinoff_prover]
#[verifier::rlimit(100)]
pub fn push_buffer(out: &mut Vec<u8>, v: &Buffer)
    ensures
        final(out)@ == old(out)@ + spec_buffer_json(*v),
{
    out.push(LBRACE);
    let body_start = out.len();
    let ghost base = out@;
    let ghost b0 = Seq::<u8>::empty();
    let ghost b1 = spec_flag_field(b0, "name".spec_bytes(), v.name@.len() > 0, spec_json_string(v.name@));
    proof {
        assert(out@.take(body_start as int) =~= base);
        assert(out@.skip(body_start as int) =~= b0);
    }
    let emit1 = v.name.len() > 0;
    let mut val1: Vec<u8> = Vec::new();
    if emit1 {
        push_json_string(&mut val1, &v.name);
    }
    push_field(out, body_start, "name", emit1, &val1);
    proof {
        assert(out@ == base + b1);
    }
    let ghost b2 = spec_flag_field(b1, "byteLength".spec_bytes(), true, spec_dec_u32(v.byte_length as nat));
    proof {
        assert(out@.take(body_start as int) =~= base);
        assert(out@.skip(body_start as int) =~= b1);
    }
    let emit2 = true;
    let mut val2: Vec<u8> = Vec::new();
    if emit2 {
        push_dec_u32(&mut val2, v.byte_length);
    }
    push_field(out, body_start, "byteLength", emit2, &val2);
    proof {
        assert(out@ == base + b2);
    }
    let ghost b3 = spec_flag_field(b2, "uri".spec_bytes(), v.uri@.len() > 0, spec_json_string(v.uri@));
    proof {
        assert(out@.take(body_start as int) =~= base);
        assert(out@.skip(body_start as int) =~= b2);
    }
    let emit3 = v.uri.len() > 0;
    let mut val3: Vec<u8> = Vec::new();
    if emit3 {
        push_json_string(&mut val3, &v.uri);
    }
    push_field(out, body_start, "uri", emit3, &val3);
    proof {
        assert(out@ == base + b3);
    }
    out.push(RBRACE);
    proof {
        assert(out@ =~= old(out)@ + spec_buffer_json(*v));
    }
}

/// The comma-joined serialized forms of a list of `Buffer` entries.
pub open spec fn spec_buffer_list(s: Seq<Buffer>) -> Seq<u8>
    decreases s.len(),
{
    if s.len() == 0 {
        Seq::empty()
    } else {
        append_field(spec_buffer_list(s.drop_last()), spec_buffer_json(s.last()))
    }
}

/// A list of `Buffer` entries between brackets.
pub open spec fn spec_buffer_array(s: Seq<Buffer>) -> Seq<u8> {
    seq![LBRACK] + spec_buffer_list(s) + seq![RBRACK]
}

/// Appends a bracketed list of `Buffer` entries.
pub fn push_buffer_array(out: &mut Vec<u8>, s: &Vec<Buffer>)
    ensures
        final(out)@ == old(out)@ + spec_buffer_array(s@),
{
    out.push(LBRACK);
    let body_start = out.len();
    let n = s.len();
    let mut i: usize = 0;
    while i < n
        invariant
            n == s@.len(),
            i <= n,
            body_start == old(out)@.len() + 1,
            out@ == old(out)@ + seq![LBRACK] + spec_buffer_list(s@.take(i as int)),
        decreases n - i,
    {
        if out.len() > body_start {
            out.push(COMMA);
        }
        push_buffer(out, &s[i]);
        proof {
            assert(s@.take(i + 1).drop_last() =~= s@.take(i as int));
            assert(s@.take(i + 1).last() == s@[i as int]);
            assert(out@ =~= old(out)@ + seq![LBRACK] + spec_buffer_list(s@.take(i + 1)));
        }
        i = i + 1;
    }
    out.push(RBRACK);
    proof {
        assert(s@.take(n as int) =~= s@);
        assert(out@ =~= old(out)@ + spec_buffer_array(s@));
    }
}

/// One stretch of the object body of a `GLTF`, appended to `b`.
pub open spec fn spec_gltf_body_a(b: Seq<u8>, v: GLTF) -> Seq<u8> {
    let b = spec_flag_field(b, "asset".spec_bytes(), true, spec_asset_json(v.asset));
    let b = spec_flag_field(b, "scene".spec_bytes(), v.scene is Some, spec_dec_u32(v.scene->Some_0 as nat));
    let b = spec_flag_field(b, "scenes".spec_bytes(), v.scenes@.len() > 0, spec_scene_array(v.scenes@));
    let b = spec_flag_field(b, "nodes".spec_bytes(), v.nodes@.len() > 0, spec_node_array(v.nodes@));
    b
}

#[verifier::spinoff_prover]
#[verifier::rlimit(100)]
fn push_gltf_body_a(out: &mut Vec<u8>, v: &GLTF, body_start: usize)
    requires
        body_start <= old(out)@.len(),
    ensures
        final(out)@ == old(out)@.take(body_start as int) + spec_gltf_body_a(
            old(out)@.skip(body_start as int),
            *v,
        ),
{
    let ghost base = out@.take(body_start as int);
    let ghost b0 = out@.skip(body_start as int);
    let ghost b1 = spec_flag_field(b0, "asset".spec_bytes(), true, spec_asset_json(v.asset));
    proof {
        assert(out@.take(body_start as int) =~= base);
        assert(out@.skip(body_start as int) =~= b0);
    }
    let emit1 = true;
    let mut val1: Vec<u8> = Vec::new();
    if emit1 {
        push_asset(&mut val1, &v.asset);
    }
    push_field(out, body_start, "asset", emit1, &val1);
    proof {
        assert(out@ == base + b1);
    }
    let ghost b2 = spec_flag_field(b1, "scene".spec_bytes(), v.scene is Some, spec_dec_u32(v.scene->Some_0 as nat));
    proof {
        assert(out@.take(body_start as int) =~= base);
        assert(out@.skip(body_start as int) =~= b1);
    }
    let emit2 = v.scene.is_some();
    let mut val2: Vec<u8> = Vec::new();
    if emit2 {
        match v.scene {
            Some(x) => push_dec_u32(&mut val2, x),
            None => {},
        }
    }
    push_field(out, body_start, "scene", emit2, &val2);
    proof {
        assert(out@ == base + b2);
    }
    let ghost b3 = spec_flag_field(b2, "scenes".spec_bytes(), v.scenes@.len() > 0, spec_scene_array(v.scenes@));
    proof {
        assert(out@.take(body_start as int) =~= base);
        assert(out@.skip(body_start as int) =~= b2);
    }
    let emit3 = v.scenes.len() > 0;
    let mut val3: Vec<u8> = Vec::new();
    if emit3 {
        push_scene_array(&mut val3, &v.scenes);
    }
    push_field(out, body_start, "scenes", emit3, &val3);
    proof {
        assert(out@ == base + b3);
    }
    let ghost b4 = spec_flag_field(b3, "nodes".spec_bytes(), v.nodes@.len() > 0, spec_node_array(v.nodes@));
    proof {
        assert(out@.take(body_start as int) =~= base);
        assert(out@.skip(body_start as int) =~= b3);
    }
    let emit4 = v.nodes.len() > 0;
    let mut val4: Vec<u8> = Vec::new();
    if emit4 {
        push_node_array(&mut val4, &v.nodes);
    }
    push_field(out, body_start, "nodes", emit4, &val4);
    proof {
        assert(out@ == base + b4);
    }
}

/// One stretch of the object body of a `GLTF`, appended to `b`.
pub open spec fn spec_gltf_body_b(b: Seq<u8>, v: GLTF) -> Seq<u8> {
    let b = spec_flag_field(b, "materials".spec_bytes(), v.materials@.len() > 0, spec_material_array(v.materials@));
    let b = spec_flag_field(b, "meshes".spec_bytes(), v.meshes@.len() > 0, spec_mesh_array(v.meshes@));
    let b = spec_flag_field(b, "accessors".spec_bytes(), v.accessors@.len() > 0, spec_accessor_array(v.accessors@));
    let b = spec_flag_field(b, "bufferViews".spec_bytes(), v.buffer_views@.len() > 0, spec_buffer_view_array(v.buffer_views@));
    let b = spec_flag_field(b, "buffers".spec_bytes(), v.buffers@.len() > 0, spec_buffer_array(v.buffers@));
    b
}

#[verifier::spinoff_prover]
#[verifier::rlimit(100)]
fn push_gltf_body_b(out: &mut Vec<u8>, v: &GLTF, body_start: usize)
    requires
        body_start <= old(out)@.len(),
    ensures
        final(out)@ == old(out)@.take(body_start as int) + spec_gltf_body_b(
            old(out)@.skip(body_start as int),
            *v,
        ),
{
    let ghost base = out@.take(body_start as int);
    let ghost b0 = out@.skip(body_start as int);
    let ghost b1 = spec_flag_field(b0, "materials".spec_bytes(), v.materials@.len() > 0, spec_material_array(v.materials@));
    proof {
        assert(out@.take(body_start as int) =~= base);
        assert(out@.skip(body_start as int) =~= b0);
    }
    let emit1 = v.materials.len() > 0;
    let mut val1: Vec<u8> = Vec::new();
    if emit1 {
        push_material_array(&mut val1, &v.materials);
    }
    push_field(out, body_start, "materials", emit1, &val1);
    proof {
        assert(out@ == base + b1);
    }
    let ghost b2 = spec_flag_field(b1, "meshes".spec_bytes(), v.meshes@.len() > 0, spec_mesh_array(v.meshes@));
    proof {
        assert(out@.take(body_start as int) =~= base);
        assert(out@.skip(body_start as int) =~= b1);
    }
    let emit2 = v.meshes.len() > 0;
    let mut val2: Vec<u8> = Vec::new();
    if emit2 {
        push_mesh_array(&mut val2, &v.meshes);
    }
    push_field(out, body_start, "meshes", emit2, &val2);
    proof {
        assert(out@ == base + b2);
    }
    let ghost b3 = spec_flag_field(b2, "accessors".spec_bytes(), v.accessors@.len() > 0, spec_accessor_array(v.accessors@));
    proof {
        assert(out@.take(body_start as int) =~= base);
        assert(out@.skip(body_start as int) =~= b2);
    }
    let emit3 = v.accessors.len() > 0;
    let mut val3: Vec<u8> = Vec::new();
    if emit3 {
        push_accessor_array(&mut val3, &v.accessors);
    }
    push_field(out, body_start, "accessors", emit3, &val3);
    proof {
        assert(out@ == base + b3);
    }
    let ghost b4 = spec_flag_field(b3, "bufferViews".spec_bytes(), v.buffer_views@.len() > 0, spec_buffer_view_array(v.buffer_views@));
    proof {
        assert(out@.take(body_start as int) =~= base);
        assert(out@.skip(body_start as int) =~= b3);
    }
    let emit4 = v.buffer_views.len() > 0;
    let mut val4: Vec<u8> = Vec::new();
    if emit4 {
        push_buffer_view_array(&mut val4, &v.buffer_views);
    }
    push_field(out, body_start, "bufferViews", emit4, &val4);
    proof {
        assert(out@ == base + b4);
    }
    let ghost b5 = spec_flag_field(b4, "buffers".spec_bytes(), v.buffers@.len() > 0, spec_buffer_array(v.buffers@));
    proof {
        assert(out@.take(body_start as int) =~= base);
        assert(out@.skip(body_start as int) =~= b4);
    }
    let emit5 = v.buffers.len() > 0;
    let mut val5: Vec<u8> = Vec::new();
    if emit5 {
        push_buffer_array(&mut val5, &v.buffers);
    }
    push_field(out, body_start, "buffers", emit5, &val5);
    proof {
        assert(out@ == base + b5);
    }
}

/// The serialized object form of one `GLTF`.
pub open spec fn spec_gltf_json(v: GLTF) -> Seq<u8> {
    seq![LBRACE] + spec_gltf_body_b(spec_gltf_body_a(Seq::empty(), v), v) + seq![RBRACE]
}

/// Appends the serialized form of one `GLTF`.
#[verifier::spinoff_prover]
#[verifier::rlimit(100)]
pub fn push_gltf(out: &mut Vec<u8>, v: &GLTF)
    ensures
        final(out)@ == old(out)@ + spec_gltf_json(*v),
{
    out.push(LBRACE);
    let body_start = out.len();
    let ghost base = out@;
    proof {
        assert(out@.take(body_start as int) =~= base);
        assert(out@.skip(body_start as int) =~= Seq::<u8>::empty());
    }
    push_gltf_body_a(out, v, body_start);
    proof {
        assert(out@.take(body_start as int) =~= base);
        assert(out@.skip(body_start as int) =~= spec_gltf_body_a(Seq::empty(), *v));
    }
    push_gltf_body_b(out, v, body_start);
    out.push(RBRACE);
    proof {
        assert(out@ =~= old(out)@ + spec_gltf_json(*v));
    }
}

/// Default omission: a document whose every optional part is at its
/// default serializes with only the mandatory keys -- the asset header
/// and the buffer list -- whatever those two hold.
pub proof fn lemma_default_document_minimal(g: GLTF)
    requires
        g.scene is None,
        g.scenes@.len() == 0,
        g.nodes@.len() == 0,
        g.materials@.len() == 0,
        g.meshes@.len() == 0,
        g.accessors@.len() == 0,
        g.buffer_views@.len() == 0,
        g.buffers@.len() > 0,
    ensures
        spec_gltf_json(g) == seq![LBRACE] + spec_key("asset".spec_bytes()) + spec_asset_json(
            g.asset,
        ) + seq![COMMA] + spec_key("buffers".spec_bytes()) + spec_buffer_array(g.buffers@)
            + seq![RBRACE],
{
    let part_a = spec_key("asset".spec_bytes()) + spec_asset_json(g.asset);
    assert(spec_gltf_json(g) =~= seq![LBRACE] + part_a + seq![COMMA] + spec_key(
        "buffers".spec_bytes(),
    ) + spec_buffer_array(g.buffers@) + seq![RBRACE]);
}

/// Serializes a whole document, byte for byte as [`spec_gltf_json`]
/// defines; the binary blob is not part of the serialized form.
pub fn gltf_to_json(g: &GLTF) -> (r: Vec<u8>)
    ensures
        r@ == spec_gltf_json(*g),
{
    let mut out: Vec<u8> = Vec::new();
    push_gltf(&mut out, g);
    out
}

} // verus!
