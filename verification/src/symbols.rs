//! The names under which the generated sources declare the arrays of each
//! image variant, and the names of the source files that hold them.
//!
//! Names are made of fixed text and of the chip's name, in capitals. Only the
//! letters `a` to `z` have capitals here: every other byte stays as it is.

use crate::text::{ascii, push_ascii};
use vstd::prelude::*;
use vstd::string::is_ascii;

verus! {

/// The capital of a lower-case letter, and any other byte unchanged.
pub open spec fn upper_byte(b: u8) -> u8 {
    if 0x61 <= b <= 0x7a {
        (b - 0x20) as u8
    } else {
        b
    }
}

/// `name` with every letter as a capital.
pub open spec fn upper(name: Seq<u8>) -> Seq<u8> {
    Seq::new(name.len(), |i: int| upper_byte(name[i]))
}

/// `name` with its first letter as a capital.
pub open spec fn capitalized(name: Seq<u8>) -> Seq<u8> {
    if name.len() == 0 {
        name
    } else {
        name.update(0, upper_byte(name[0]))
    }
}

/// `name` with `X` in place of its last byte.
pub open spec fn generic(name: Seq<u8>) -> Seq<u8> {
    if name.len() == 0 {
        name
    } else {
        name.update(name.len() - 1, 0x58)
    }
}

fn to_upper_byte(b: u8) -> (capital: u8)
    ensures
        capital == upper_byte(b),
{
    if 0x61 <= b && b <= 0x7a {
        b - 0x20
    } else {
        b
    }
}

/// Appends `name`, in capitals, to `out`.
fn push_upper(out: &mut Vec<u8>, name: &[u8])
    ensures
        final(out)@ == old(out)@ + upper(name@),
{
    let mut i: usize = 0;
    while i < name.len()
        invariant
            i <= name@.len(),
            out@ == old(out)@ + upper(name@).take(i as int),
        decreases name@.len() - i,
    {
        out.push(to_upper_byte(name[i]));
        i += 1;
    }
}

/// `name` with its first letter as a capital: `load` becomes `Load`.
pub fn capitalize_first_letter(name: &[u8]) -> (capital: Vec<u8>)
    ensures
        capital@ == capitalized(name@),
{
    let mut capital: Vec<u8> = Vec::new();
    capital.extend_from_slice(name);
    if capital.len() > 0 {
        let first = to_upper_byte(capital[0]);
        capital[0] = first;
    }
    capital
}

/// `name` with `X` in place of its last byte: `ad102` becomes `ad10X`.
pub fn replace_last_with_x(name: &[u8]) -> (replaced: Vec<u8>)
    ensures
        replaced@ == generic(name@),
{
    let mut replaced: Vec<u8> = Vec::new();
    replaced.extend_from_slice(name);
    if replaced.len() > 0 {
        let last: usize = replaced.len() - 1;
        replaced[last] = 0x58;
    }
    replaced
}

/// `name` in capitals: `tu102` becomes `TU102`.
pub fn to_upper(name: &[u8]) -> (capitals: Vec<u8>)
    ensures
        capitals@ == upper(name@),
{
    let mut capitals: Vec<u8> = Vec::new();
    push_upper(&mut capitals, name);
    capitals
}

/// The arrays of a plain bootloader image, by name.
#[derive(Debug, PartialEq, Eq)]
pub struct BootloaderSymbols {
    pub image: Vec<u8>,
    pub descriptor: Vec<u8>,
}

/// The names of a `BootloaderSymbols`, as plain values.
pub ghost struct BootloaderNames {
    pub image: Seq<u8>,
    pub descriptor: Seq<u8>,
}

impl View for BootloaderSymbols {
    type V = BootloaderNames;

    open spec fn view(&self) -> BootloaderNames {
        BootloaderNames { image: self.image@, descriptor: self.descriptor@ }
    }
}

/// The arrays of a signed image, by name.
#[derive(Debug, PartialEq, Eq)]
pub struct SignedSymbols {
    pub image: Vec<u8>,
    pub signatures: Vec<u8>,
    pub patch_location: Vec<u8>,
    pub patch_metadata: Vec<u8>,
    pub descriptor: Vec<u8>,
}

/// The names of a `SignedSymbols`, as plain values.
pub ghost struct SignedNames {
    pub image: Seq<u8>,
    pub signatures: Seq<u8>,
    pub patch_location: Seq<u8>,
    pub patch_metadata: Seq<u8>,
    pub descriptor: Seq<u8>,
}

impl View for SignedSymbols {
    type V = SignedNames;

    open spec fn view(&self) -> SignedNames {
        SignedNames {
            image: self.image@,
            signatures: self.signatures@,
            patch_location: self.patch_location@,
            patch_metadata: self.patch_metadata@,
            descriptor: self.descriptor@,
        }
    }
}

/// What the names of all arrays of the bootloader of `gpu` begin with.
pub open spec fn bootloader_stem(gpu: Seq<u8>) -> Seq<u8> {
    ascii("kgspBinArchiveGspRmBoot_"@) + upper(gpu)
}

/// The names of the arrays of the bootloader of `gpu`. `prod_suffix` is
/// `prod_` for the chips whose arrays are named so, and empty for the others.
pub open spec fn bootloader_names(gpu: Seq<u8>, prod_suffix: Seq<u8>) -> BootloaderNames {
    BootloaderNames {
        image: bootloader_stem(gpu) + ascii("_ucode_image_"@) + prod_suffix + ascii("data"@),
        descriptor: bootloader_stem(gpu) + ascii("_ucode_desc_"@) + prod_suffix + ascii(
            "data"@,
        ),
    }
}

/// What the names of all arrays of a booter of `gpu` begin with. `load_kind`
/// is `load` or `unload`.
pub open spec fn booter_stem(gpu: Seq<u8>, load_kind: Seq<u8>) -> Seq<u8> {
    ascii("kgspBinArchiveBooter"@) + capitalized(load_kind) + ascii("Ucode_"@) + upper(gpu)
}

/// What the names of all arrays of the scrubber of `gpu` begin with. The
/// sources name the scrubber after the chip's family: `AD10X` for `ad102`.
pub open spec fn scrubber_stem(gpu: Seq<u8>) -> Seq<u8> {
    ascii("ksec2BinArchiveSecurescrubUcode_"@) + upper(generic(gpu))
}

/// The names of the arrays of the signed image whose names begin with `stem`.
pub open spec fn signed_names(stem: Seq<u8>) -> SignedNames {
    SignedNames {
        image: stem + ascii("_image_prod_data"@),
        signatures: stem + ascii("_sig_prod_data"@),
        patch_location: stem + ascii("_patch_loc_data"@),
        patch_metadata: stem + ascii("_patch_meta_data"@),
        descriptor: stem + ascii("_header_prod_data"@),
    }
}

/// The source file that holds the arrays of the bootloader of `gpu`, from the
/// root of the source tree.
pub open spec fn bootloader_source(gpu: Seq<u8>) -> Seq<u8> {
    ascii("src/nvidia/generated/g_bindata_kgspGetBinArchiveGspRmBoot_"@) + upper(gpu) + ascii(
        ".c"@,
    )
}

/// The source file that holds the arrays of a booter of `gpu`.
pub open spec fn booter_source(gpu: Seq<u8>, load_kind: Seq<u8>) -> Seq<u8> {
    ascii("src/nvidia/generated/g_bindata_kgspGetBinArchiveBooter"@) + capitalized(load_kind)
        + ascii("Ucode_"@) + upper(gpu) + ascii(".c"@)
}

/// The source file that holds the arrays of the scrubber of `gpu`.
pub open spec fn scrubber_source(gpu: Seq<u8>) -> Seq<u8> {
    ascii("src/nvidia/generated/g_bindata_ksec2GetBinArchiveSecurescrubUcode_"@) + upper(
        generic(gpu),
    ) + ascii(".c"@)
}

fn join(stem: &[u8], suffix: &str) -> (name: Vec<u8>)
    requires
        is_ascii(suffix),
    ensures
        name@ == stem@ + ascii(suffix@),
{
    let mut name: Vec<u8> = Vec::new();
    name.extend_from_slice(stem);
    push_ascii(&mut name, suffix);
    name
}

fn bootloader_name(gpu: &[u8], part: &str, prod_suffix: &[u8]) -> (name: Vec<u8>)
    requires
        is_ascii(part),
    ensures
        name@ == bootloader_stem(gpu@) + ascii(part@) + prod_suffix@ + ascii("data"@),
{
    proof {
        reveal_strlit("kgspBinArchiveGspRmBoot_");
        reveal_strlit("data");
    }
    let mut name: Vec<u8> = Vec::new();
    push_ascii(&mut name, "kgspBinArchiveGspRmBoot_");
    push_upper(&mut name, gpu);
    push_ascii(&mut name, part);
    name.extend_from_slice(prod_suffix);
    push_ascii(&mut name, "data");
    name
}

/// The names of the arrays of the bootloader of `gpu`.
pub fn bootloader_symbols(gpu: &[u8], prod_suffix: &[u8]) -> (symbols: BootloaderSymbols)
    ensures
        symbols@ == bootloader_names(gpu@, prod_suffix@),
{
    proof {
        reveal_strlit("_ucode_image_");
        reveal_strlit("_ucode_desc_");
    }
    BootloaderSymbols {
        image: bootloader_name(gpu, "_ucode_image_", prod_suffix),
        descriptor: bootloader_name(gpu, "_ucode_desc_", prod_suffix),
    }
}

fn signed_symbols(stem: &[u8]) -> (symbols: SignedSymbols)
    ensures
        symbols@ == signed_names(stem@),
{
    proof {
        reveal_strlit("_image_prod_data");
        reveal_strlit("_sig_prod_data");
        reveal_strlit("_patch_loc_data");
        reveal_strlit("_patch_meta_data");
        reveal_strlit("_header_prod_data");
    }
    SignedSymbols {
        image: join(stem, "_image_prod_data"),
        signatures: join(stem, "_sig_prod_data"),
        patch_location: join(stem, "_patch_loc_data"),
        patch_metadata: join(stem, "_patch_meta_data"),
        descriptor: join(stem, "_header_prod_data"),
    }
}

fn booter_prefix(lead: &str, gpu: &[u8], load_kind: &[u8]) -> (name: Vec<u8>)
    requires
        is_ascii(lead),
    ensures
        name@ == ascii(lead@) + capitalized(load_kind@) + ascii("Ucode_"@) + upper(gpu@),
{
    proof {
        reveal_strlit("Ucode_");
    }
    let mut name: Vec<u8> = Vec::new();
    push_ascii(&mut name, lead);
    let load = capitalize_first_letter(load_kind);
    name.extend_from_slice(load.as_slice());
    push_ascii(&mut name, "Ucode_");
    push_upper(&mut name, gpu);
    name
}

fn scrubber_prefix(lead: &str, gpu: &[u8]) -> (name: Vec<u8>)
    requires
        is_ascii(lead),
    ensures
        name@ == ascii(lead@) + upper(generic(gpu@)),
{
    let mut name: Vec<u8> = Vec::new();
    push_ascii(&mut name, lead);
    let family = replace_last_with_x(gpu);
    push_upper(&mut name, family.as_slice());
    name
}

/// The names of the arrays of a booter of `gpu`; `load_kind` is `load` or
/// `unload`.
pub fn booter_symbols(gpu: &[u8], load_kind: &[u8]) -> (symbols: SignedSymbols)
    ensures
        symbols@ == signed_names(booter_stem(gpu@, load_kind@)),
{
    proof {
        reveal_strlit("kgspBinArchiveBooter");
    }
    let stem = booter_prefix("kgspBinArchiveBooter", gpu, load_kind);
    signed_symbols(stem.as_slice())
}

/// The names of the arrays of the scrubber of `gpu`.
pub fn scrubber_symbols(gpu: &[u8]) -> (symbols: SignedSymbols)
    ensures
        symbols@ == signed_names(scrubber_stem(gpu@)),
{
    proof {
        reveal_strlit("ksec2BinArchiveSecurescrubUcode_");
    }
    let stem = scrubber_prefix("ksec2BinArchiveSecurescrubUcode_", gpu);
    signed_symbols(stem.as_slice())
}

/// The source file of the bootloader of `gpu`.
pub fn bootloader_source_file(gpu: &[u8]) -> (path: Vec<u8>)
    ensures
        path@ == bootloader_source(gpu@),
{
    proof {
        reveal_strlit("src/nvidia/generated/g_bindata_kgspGetBinArchiveGspRmBoot_");
        reveal_strlit(".c");
    }
    let mut path: Vec<u8> = Vec::new();
    push_ascii(&mut path, "src/nvidia/generated/g_bindata_kgspGetBinArchiveGspRmBoot_");
    push_upper(&mut path, gpu);
    push_ascii(&mut path, ".c");
    path
}

/// The source file of a booter of `gpu`.
pub fn booter_source_file(gpu: &[u8], load_kind: &[u8]) -> (path: Vec<u8>)
    ensures
        path@ == booter_source(gpu@, load_kind@),
{
    proof {
        reveal_strlit("src/nvidia/generated/g_bindata_kgspGetBinArchiveBooter");
        reveal_strlit(".c");
    }
    let mut path = booter_prefix(
        "src/nvidia/generated/g_bindata_kgspGetBinArchiveBooter",
        gpu,
        load_kind,
    );
    push_ascii(&mut path, ".c");
    path
}

/// The source file of the scrubber of `gpu`.
pub fn scrubber_source_file(gpu: &[u8]) -> (path: Vec<u8>)
    ensures
        path@ == scrubber_source(gpu@),
{
    proof {
        reveal_strlit("src/nvidia/generated/g_bindata_ksec2GetBinArchiveSecurescrubUcode_");
        reveal_strlit(".c");
    }
    let mut path = scrubber_prefix(
        "src/nvidia/generated/g_bindata_ksec2GetBinArchiveSecurescrubUcode_",
        gpu,
    );
    push_ascii(&mut path, ".c");
    path
}

} // verus!
