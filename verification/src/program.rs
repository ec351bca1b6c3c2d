use vstd::prelude::*;
use vstd::string::StringExecFns;
use vstd::string::StringSliceAdditionalSpecFns;

verus! {

/// Whether `needle` occurs in `hay` starting at byte `i`.
pub open spec fn occurs_at(hay: Seq<u8>, needle: Seq<u8>, i: int) -> bool {
    0 <= i && i + needle.len() <= hay.len() && hay.subrange(i, i + needle.len()) == needle
}

/// Whether `needle` occurs anywhere in `hay`.
pub open spec fn contains_bytes(hay: Seq<u8>, needle: Seq<u8>) -> bool {
    exists|i: int| occurs_at(hay, needle, i)
}

/// Whether the bytes of `needle` match `hay` at offset `i`, compared byte by byte.
fn matches_at(hay: &[u8], needle: &[u8], i: usize) -> (r: bool)
    requires
        i + needle@.len() <= hay@.len(),
    ensures
        r == occurs_at(hay@, needle@, i as int),
{
    let hay_len = hay.len();
    let mut k: usize = 0;
    while k < needle.len()
        invariant
            i + needle@.len() <= hay@.len(),
            hay@.len() == hay_len,
            k <= needle@.len(),
            forall|j: int| 0 <= j < k ==> hay@[i + j] == needle@[j],
        decreases needle@.len() - k,
    {
        if hay[i + k] != needle[k] {
            assert(hay@.subrange(i as int, i + needle@.len())[k as int] != needle@[k as int]);
            return false;
        }
        k = k + 1;
    }
    assert(hay@.subrange(i as int, i + needle@.len()) =~= needle@);
    true
}

/// Returns whether `needle` occurs in `haystack`, as `str::contains` does for a string
/// pattern: some run of the haystack's bytes equals the needle's bytes.
pub fn str_contains(haystack: &str, needle: &str) -> (r: bool)
    ensures
        r == contains_bytes(haystack.spec_bytes(), needle.spec_bytes()),
{
    let hay = haystack.as_bytes();
    let pat = needle.as_bytes();
    if pat.len() > hay.len() {
        assert forall|i: int| !occurs_at(hay@, pat@, i) by {}
        return false;
    }
    let last = hay.len() - pat.len();
    let mut i: usize = 0;
    loop
        invariant_except_break
            i <= last,
            last == hay@.len() - pat@.len(),
            hay@ == haystack.spec_bytes(),
            pat@ == needle.spec_bytes(),
            forall|j: int| 0 <= j < i ==> !occurs_at(hay@, pat@, j),
        ensures
            forall|j: int| 0 <= j <= last ==> !occurs_at(hay@, pat@, j),
        decreases last - i,
    {
        if matches_at(hay, pat, i) {
            return true;
        }
        if i == last {
            break;
        }
        i = i + 1;
    }
    assert forall|j: int| !occurs_at(hay@, pat@, j) by {
        if 0 <= j <= last {
        }
    }
    false
}

/// The kind of a fragment shader: one that draws sprite layers, or one that draws textures
/// (postprocessors and fills).
#[derive(Clone, Copy, Debug, PartialEq, Eq, Structural)]
pub enum ShaderKind {
    Sprite,
    Texture,
}

/// The kind of the shader source: a sprite shader takes `SpriteFragmentInput` as its
/// fragment input.
pub open spec fn spec_shader_kind(source: Seq<u8>) -> ShaderKind {
    if contains_bytes(source, "SpriteFragmentInput".spec_bytes()) {
        ShaderKind::Sprite
    } else {
        ShaderKind::Texture
    }
}

/// Whether the shader declares its own uniforms buffer (`@group(0) @binding(0)`) and so
/// needs no preamble.
pub open spec fn spec_self_contained(source: Seq<u8>) -> bool {
    contains_bytes(source, "@group(0) @binding(0)".spec_bytes())
}

/// Determines the kind of a fragment shader from its source.
pub fn shader_kind(source: &str) -> (r: ShaderKind)
    ensures
        r == spec_shader_kind(source.spec_bytes()),
{
    if str_contains(source, "SpriteFragmentInput") {
        ShaderKind::Sprite
    } else {
        ShaderKind::Texture
    }
}

/// Whether the shader source declares its own uniforms buffer.
pub fn is_self_contained(source: &str) -> (r: bool)
    ensures
        r == spec_self_contained(source.spec_bytes()),
{
    str_contains(source, "@group(0) @binding(0)")
}

/// The full source of a fragment shader: a self-contained shader as it is; otherwise the
/// preamble for its kind, a line break, and the shader. The preamble provides `sheet()`,
/// `sheetSize()`, `sheetComponent()` and the input struct.
pub fn shader_source(source: &str, sprite_preamble: &str, texture_preamble: &str) -> (r: String)
    ensures
        spec_self_contained(source.spec_bytes()) ==> r@ == source@,
        !spec_self_contained(source.spec_bytes()) && spec_shader_kind(source.spec_bytes())
            == ShaderKind::Sprite ==> r@ == sprite_preamble@ + "\n"@ + source@,
        !spec_self_contained(source.spec_bytes()) && spec_shader_kind(source.spec_bytes())
            == ShaderKind::Texture ==> r@ == texture_preamble@ + "\n"@ + source@,
{
    if is_self_contained(source) {
        String::from_str(source)
    } else {
        let preamble = match shader_kind(source) {
            ShaderKind::Sprite => sprite_preamble,
            ShaderKind::Texture => texture_preamble,
        };
        let mut combined = String::from_str(preamble);
        combined.append("\n");
        combined.append(source);
        combined
    }
}

} // verus!
