//! Names and paths: which content files are plugins, and where a mesh is
//! looked up.
use vstd::prelude::*;
use vstd::string::StringExecFns;

verus! {

/// The directory, in the virtual file system, below which mesh paths are
/// looked up.
pub const MESH_ROOT: &'static str = "meshes/";

/// The mesh root as a value.
pub open spec fn mesh_root_text() -> Seq<char> {
    seq!['m', 'e', 's', 'h', 'e', 's', '/']
}

/// The directory below which processed meshes are written, each at its own
/// mesh path.
pub const OUTPUT_ROOT: &'static str = "openmw_pincushion_generator";

/// A byte with an ASCII capital letter turned into the small one.
pub open spec fn ascii_lower(byte: u8) -> u8 {
    if 0x41 <= byte <= 0x5a {
        (byte + 0x20) as u8
    } else {
        byte
    }
}

/// Whether two byte strings are the same but for the case of ASCII letters.
pub open spec fn same_ignoring_ascii_case(left: Seq<u8>, right: Seq<u8>) -> bool {
    &&& left.len() == right.len()
    &&& forall|i: int| 0 <= i < left.len() ==> ascii_lower(#[trigger] left[i]) == ascii_lower(right[i])
}

/// The extensions of plugin files, in lower case.
pub open spec fn plugin_extensions() -> Seq<Seq<u8>> {
    seq![
        seq!['e' as u8, 's' as u8, 'p' as u8],
        seq!['e' as u8, 's' as u8, 'm' as u8],
        seq!['o' as u8, 'm' as u8, 'w' as u8, 'a' as u8, 'd' as u8, 'd' as u8, 'o' as u8, 'n' as u8],
        seq!['o' as u8, 'm' as u8, 'w' as u8, 'g' as u8, 'a' as u8, 'm' as u8],
    ]
}

/// Whether a file with `extension` is a plugin, whatever the case of the
/// letters.
pub open spec fn is_plugin(extension: Seq<u8>) -> bool {
    exists|i: int|
        0 <= i < plugin_extensions().len() && same_ignoring_ascii_case(
            extension,
            #[trigger] plugin_extensions()[i],
        )
}

/// The byte with an ASCII capital letter turned into the small one.
fn lower(byte: u8) -> (small: u8)
    ensures
        small == ascii_lower(byte),
{
    if 0x41 <= byte && byte <= 0x5a {
        byte + 0x20
    } else {
        byte
    }
}

/// Whether `left` and `right` are the same but for the case of ASCII
/// letters.
pub fn eq_ignore_ascii_case(left: &[u8], right: &[u8]) -> (same: bool)
    ensures
        same == same_ignoring_ascii_case(left@, right@),
{
    if left.len() != right.len() {
        return false;
    }
    let mut k: usize = 0;
    while k < left.len()
        invariant
            left@.len() == right@.len(),
            k <= left@.len(),
            forall|i: int| 0 <= i < k ==> ascii_lower(#[trigger] left@[i]) == ascii_lower(right@[i]),
        decreases left@.len() - k,
    {
        if lower(left[k]) != lower(right[k]) {
            return false;
        }
        k += 1;
    }
    true
}

/// Whether a content file with `extension` is a plugin that may hold weapon
/// records.
pub fn is_plugin_extension(extension: &[u8]) -> (plugin: bool)
    ensures
        plugin == is_plugin(extension@),
{
    let esp: [u8; 3] = ['e' as u8, 's' as u8, 'p' as u8];
    let esm: [u8; 3] = ['e' as u8, 's' as u8, 'm' as u8];
    let omwaddon: [u8; 8] = [
        'o' as u8,
        'm' as u8,
        'w' as u8,
        'a' as u8,
        'd' as u8,
        'd' as u8,
        'o' as u8,
        'n' as u8,
    ];
    let omwgam: [u8; 6] = ['o' as u8, 'm' as u8, 'w' as u8, 'g' as u8, 'a' as u8, 'm' as u8];
    assert(esp@ =~= plugin_extensions()[0]);
    assert(esm@ =~= plugin_extensions()[1]);
    assert(omwaddon@ =~= plugin_extensions()[2]);
    assert(omwgam@ =~= plugin_extensions()[3]);
    eq_ignore_ascii_case(extension, esp.as_slice()) || eq_ignore_ascii_case(
        extension,
        esm.as_slice(),
    ) || eq_ignore_ascii_case(extension, omwaddon.as_slice()) || eq_ignore_ascii_case(
        extension,
        omwgam.as_slice(),
    )
}

/// Where the mesh at `mesh_path` is looked up in the virtual file system:
/// at that path below the mesh root.
pub fn mesh_vfs_path(mesh_path: &str) -> (path: String)
    ensures
        path@ == mesh_root_text() + mesh_path@,
{
    proof {
        reveal_strlit("meshes/");
        assert(MESH_ROOT@ =~= mesh_root_text());
    }
    let mut path = MESH_ROOT.to_owned();
    path.append(mesh_path);
    path
}

} // verus!
