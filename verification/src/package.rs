//! What goes with the firmware files when they are packaged: the names of
//! the files, the links between chips that share files, and the text that
//! lists both.
//!
//! Five chips have firmware of their own: `tu102`, `tu116`, `ga100`, `ga102`
//! and `ad102`. Every other chip uses the files of one of these.

use crate::text::{ascii, push_ascii};
use vstd::prelude::*;
use vstd::string::is_ascii;

verus! {

/// Where the file of one kind lies for a chip, from the directory that holds
/// the directories of all chips.
pub open spec fn firmware_path(gpu: Seq<u8>, kind: Seq<u8>, version: Seq<u8>) -> Seq<u8> {
    gpu + ascii("/gsp/"@) + kind + ascii("-"@) + version + ascii(".bin"@)
}

/// Appends the path of a firmware file to `out`.
fn push_firmware_path(out: &mut Vec<u8>, gpu: &[u8], kind: &[u8], version: &[u8])
    ensures
        final(out)@ == old(out)@ + firmware_path(gpu@, kind@, version@),
{
    proof {
        reveal_strlit("/gsp/");
        reveal_strlit("-");
        reveal_strlit(".bin");
    }
    out.extend_from_slice(gpu);
    push_ascii(out, "/gsp/");
    out.extend_from_slice(kind);
    push_ascii(out, "-");
    out.extend_from_slice(version);
    push_ascii(out, ".bin");
}

/// The path of the file of one kind for a chip: `tu102/gsp/gsp-1.2.bin` for
/// the chip `tu102`, the kind `gsp` and the version `1.2`.
pub fn firmware_file(gpu: &[u8], kind: &[u8], version: &[u8]) -> (path: Vec<u8>)
    ensures
        path@ == firmware_path(gpu@, kind@, version@),
{
    let mut path: Vec<u8> = Vec::new();
    push_firmware_path(&mut path, gpu, kind, version);
    path
}

/// A link that stands for a file or a directory of another chip.
#[derive(Debug, PartialEq, Eq)]
pub struct Link {
    /// The directory that holds the link. It is created where it is missing.
    pub directory: Vec<u8>,
    /// The path of the link.
    pub link: Vec<u8>,
    /// What the link points to, from the directory that holds the link.
    pub target: Vec<u8>,
}

/// What a `Link` holds, as plain values.
pub ghost struct LinkModel {
    pub directory: Seq<u8>,
    pub link: Seq<u8>,
    pub target: Seq<u8>,
}

impl View for Link {
    type V = LinkModel;

    open spec fn view(&self) -> LinkModel {
        LinkModel { directory: self.directory@, link: self.link@, target: self.target@ }
    }
}

/// The link of a chip that uses every file of another chip: its `gsp`
/// directory is a link to the one of that chip.
pub open spec fn directory_link(gpu: Seq<u8>, parent: Seq<u8>) -> LinkModel {
    LinkModel {
        directory: gpu,
        link: gpu + ascii("/gsp"@),
        target: ascii("../"@) + parent + ascii("/gsp"@),
    }
}

/// The link of a chip that uses one file of another chip.
pub open spec fn file_link(gpu: Seq<u8>, parent: Seq<u8>, kind: Seq<u8>, version: Seq<u8>)
    -> LinkModel {
    LinkModel {
        directory: gpu + ascii("/gsp"@),
        link: firmware_path(gpu, kind, version),
        target: ascii("../../"@) + firmware_path(parent, kind, version),
    }
}

/// The links of the chips that use every file of another chip.
pub open spec fn directory_links() -> Seq<LinkModel> {
    seq![
        directory_link(ascii("tu104"@), ascii("tu102"@)),
        directory_link(ascii("tu106"@), ascii("tu102"@)),
        directory_link(ascii("tu117"@), ascii("tu102"@)),
        directory_link(ascii("ad103"@), ascii("ad102"@)),
        directory_link(ascii("ad104"@), ascii("ad102"@)),
        directory_link(ascii("ad106"@), ascii("ad102"@)),
        directory_link(ascii("ad107"@), ascii("ad102"@)),
        directory_link(ascii("ga103"@), ascii("ga102"@)),
        directory_link(ascii("ga104"@), ascii("ga102"@)),
        directory_link(ascii("ga106"@), ascii("ga102"@)),
        directory_link(ascii("ga107"@), ascii("ga102"@)),
    ]
}

/// The links of the chips that use single files of another chip.
pub open spec fn file_links(version: Seq<u8>) -> Seq<LinkModel> {
    seq![
        file_link(ascii("tu116"@), ascii("tu102"@), ascii("bootloader"@), version),
        file_link(ascii("tu116"@), ascii("tu102"@), ascii("gsp"@), version),
        file_link(ascii("ga100"@), ascii("tu102"@), ascii("gsp"@), version),
        file_link(ascii("ad102"@), ascii("ga102"@), ascii("gsp"@), version),
    ]
}

/// All links, in the order in which they are made: those of whole
/// directories first.
pub open spec fn links(version: Seq<u8>) -> Seq<LinkModel> {
    directory_links() + file_links(version)
}

/// The links of `links`, as plain values.
pub open spec fn link_models(links: Seq<Link>) -> Seq<LinkModel> {
    Seq::new(links.len(), |i: int| links[i]@)
}

fn bytes_of_text(s: &str) -> (bytes: Vec<u8>)
    requires
        is_ascii(s),
    ensures
        bytes@ == ascii(s@),
{
    let mut bytes: Vec<u8> = Vec::new();
    push_ascii(&mut bytes, s);
    bytes
}

fn directory_link_of(gpu: &str, parent: &str) -> (link: Link)
    requires
        is_ascii(gpu),
        is_ascii(parent),
    ensures
        link@ == directory_link(ascii(gpu@), ascii(parent@)),
{
    proof {
        reveal_strlit("/gsp");
        reveal_strlit("../");
    }
    let mut link = bytes_of_text(gpu);
    push_ascii(&mut link, "/gsp");
    let mut target = bytes_of_text("../");
    push_ascii(&mut target, parent);
    push_ascii(&mut target, "/gsp");
    Link { directory: bytes_of_text(gpu), link, target }
}

fn file_link_of(gpu: &str, parent: &str, kind: &str, version: &[u8]) -> (link: Link)
    requires
        is_ascii(gpu),
        is_ascii(parent),
        is_ascii(kind),
    ensures
        link@ == file_link(ascii(gpu@), ascii(parent@), ascii(kind@), version@),
{
    proof {
        reveal_strlit("/gsp");
        reveal_strlit("../../");
    }
    let kind_bytes = bytes_of_text(kind);
    let mut directory = bytes_of_text(gpu);
    push_ascii(&mut directory, "/gsp");
    let mut target = bytes_of_text("../../");
    push_firmware_path(
        &mut target,
        bytes_of_text(parent).as_slice(),
        kind_bytes.as_slice(),
        version,
    );
    Link {
        directory,
        link: firmware_file(bytes_of_text(gpu).as_slice(), kind_bytes.as_slice(), version),
        target,
    }
}

fn push_link(out: &mut Vec<Link>, link: Link)
    ensures
        link_models(final(out)@) == link_models(old(out)@).push(link@),
{
    out.push(link);
    assert(link_models(out@) =~= link_models(old(out)@).push(link@));
}

/// The links that make the files of `version` known under the name of every
/// chip that uses them.
pub fn planned_links(version: &[u8]) -> (plan: Vec<Link>)
    ensures
        link_models(plan@) == links(version@),
{
    proof {
        reveal_strlit("tu102");
        reveal_strlit("tu104");
        reveal_strlit("tu106");
        reveal_strlit("tu116");
        reveal_strlit("tu117");
        reveal_strlit("ga100");
        reveal_strlit("ga102");
        reveal_strlit("ga103");
        reveal_strlit("ga104");
        reveal_strlit("ga106");
        reveal_strlit("ga107");
        reveal_strlit("ad102");
        reveal_strlit("ad103");
        reveal_strlit("ad104");
        reveal_strlit("ad106");
        reveal_strlit("ad107");
        reveal_strlit("bootloader");
        reveal_strlit("gsp");
    }
    let mut plan: Vec<Link> = Vec::new();
    assert(link_models(plan@) =~= Seq::<LinkModel>::empty());
    push_link(&mut plan, directory_link_of("tu104", "tu102"));
    push_link(&mut plan, directory_link_of("tu106", "tu102"));
    push_link(&mut plan, directory_link_of("tu117", "tu102"));
    push_link(&mut plan, directory_link_of("ad103", "ad102"));
    push_link(&mut plan, directory_link_of("ad104", "ad102"));
    push_link(&mut plan, directory_link_of("ad106", "ad102"));
    push_link(&mut plan, directory_link_of("ad107", "ad102"));
    push_link(&mut plan, directory_link_of("ga103", "ga102"));
    push_link(&mut plan, directory_link_of("ga104", "ga102"));
    push_link(&mut plan, directory_link_of("ga106", "ga102"));
    push_link(&mut plan, directory_link_of("ga107", "ga102"));
    push_link(&mut plan, file_link_of("tu116", "tu102", "bootloader", version));
    push_link(&mut plan, file_link_of("tu116", "tu102", "gsp", version));
    push_link(&mut plan, file_link_of("ga100", "tu102", "gsp", version));
    push_link(&mut plan, file_link_of("ad102", "ga102", "gsp", version));
    assert(link_models(plan@) =~= links(version@));
    plan
}

/// The line that lists a file of a chip.
pub open spec fn file_entry(gpu: Seq<u8>, kind: Seq<u8>, version: Seq<u8>) -> Seq<u8> {
    ascii("File: nvidia/"@) + firmware_path(gpu, kind, version) + ascii("\n"@)
}

/// The line that lists a link.
pub open spec fn link_entry(link: LinkModel) -> Seq<u8> {
    ascii("Link: nvidia/"@) + link.link + ascii(" -> "@) + link.target + ascii("\n"@)
}

/// The line that says which file of the driver package a file is taken from.
pub open spec fn origin_entry(blob: Seq<u8>, version: Seq<u8>) -> Seq<u8> {
    ascii("Origin: "@) + blob + ascii(" from NVIDIA-Linux-x86_64-"@) + version + ascii(
        ".run\n"@,
    )
}

/// The lines that list the loaders of a chip: the one that loads, the one
/// that unloads.
pub open spec fn booter_entries(gpu: Seq<u8>, version: Seq<u8>) -> Seq<u8> {
    file_entry(gpu, ascii("booter_load"@), version) + file_entry(
        gpu,
        ascii("booter_unload"@),
        version,
    )
}

/// The lines that list the images of a chip: the bootloader and the loaders.
pub open spec fn image_entries(gpu: Seq<u8>, version: Seq<u8>) -> Seq<u8> {
    file_entry(gpu, ascii("bootloader"@), version) + booter_entries(gpu, version)
}

/// The lines that list the links of the chips that use every file of
/// `parent`.
pub open spec fn family_entries(parent: Seq<u8>, a: Seq<u8>, b: Seq<u8>, c: Seq<u8>, d: Seq<u8>)
    -> Seq<u8> {
    link_entry(directory_link(a, parent)) + link_entry(directory_link(b, parent)) + link_entry(
        directory_link(c, parent),
    ) + link_entry(directory_link(d, parent))
}

/// The lines of a chip with images of its own and two chips that use them.
pub open spec fn section_tu102(version: Seq<u8>) -> Seq<u8> {
    image_entries(ascii("tu102"@), version) + link_entry(
        directory_link(ascii("tu104"@), ascii("tu102"@)),
    ) + link_entry(directory_link(ascii("tu106"@), ascii("tu102"@))) + ascii("\n"@)
}

/// The lines of a chip with loaders of its own and the bootloader of another
/// chip, and of the chip that uses its files.
pub open spec fn section_tu116(version: Seq<u8>) -> Seq<u8> {
    booter_entries(ascii("tu116"@), version) + link_entry(
        file_link(ascii("tu116"@), ascii("tu102"@), ascii("bootloader"@), version),
    ) + link_entry(directory_link(ascii("tu117"@), ascii("tu116"@))) + ascii("\n"@)
}

/// The lines of a chip with images of its own that no other chip uses.
pub open spec fn section_ga100(version: Seq<u8>) -> Seq<u8> {
    image_entries(ascii("ga100"@), version) + ascii("\n"@)
}

/// The lines of a chip with images of its own and four chips that use them.
pub open spec fn section_ad102(version: Seq<u8>) -> Seq<u8> {
    image_entries(ascii("ad102"@), version) + family_entries(
        ascii("ad102"@),
        ascii("ad103"@),
        ascii("ad104"@),
        ascii("ad106"@),
        ascii("ad107"@),
    ) + ascii("\n"@)
}

/// The lines of a chip with images of its own and four chips that use them.
pub open spec fn section_ga102(version: Seq<u8>) -> Seq<u8> {
    image_entries(ascii("ga102"@), version) + family_entries(
        ascii("ga102"@),
        ascii("ga103"@),
        ascii("ga104"@),
        ascii("ga106"@),
        ascii("ga107"@),
    ) + ascii("\n"@)
}

/// The lines of the first file from the driver package, and of the two chips
/// that use it too.
pub open spec fn section_gsp_tu10x(version: Seq<u8>) -> Seq<u8> {
    file_entry(ascii("tu102"@), ascii("gsp"@), version) + origin_entry(
        ascii("gsp_tu10x.bin"@),
        version,
    ) + link_entry(file_link(ascii("tu116"@), ascii("tu102"@), ascii("gsp"@), version))
        + link_entry(file_link(ascii("ga100"@), ascii("tu102"@), ascii("gsp"@), version))
        + ascii("\n"@)
}

/// The lines of the second file from the driver package, and of the chip
/// that uses it too.
pub open spec fn section_gsp_ga10x(version: Seq<u8>) -> Seq<u8> {
    file_entry(ascii("ga102"@), ascii("gsp"@), version) + origin_entry(
        ascii("gsp_ga10x.bin"@),
        version,
    ) + link_entry(file_link(ascii("ad102"@), ascii("ga102"@), ascii("gsp"@), version))
}

/// The text that lists the firmware files of `version` and the links to
/// them, chip by chip, and behind them the two files that are taken from the
/// driver package.
pub open spec fn whence(version: Seq<u8>) -> Seq<u8> {
    section_tu102(version) + section_tu116(version) + section_ga100(version) + section_ad102(
        version,
    ) + section_ga102(version) + section_gsp_tu10x(version) + section_gsp_ga10x(version)
}

fn push_file_entry(out: &mut Vec<u8>, gpu: &str, kind: &str, version: &[u8])
    requires
        is_ascii(gpu),
        is_ascii(kind),
    ensures
        final(out)@ == old(out)@ + file_entry(ascii(gpu@), ascii(kind@), version@),
{
    proof {
        reveal_strlit("File: nvidia/");
        reveal_strlit("\n");
    }
    push_ascii(out, "File: nvidia/");
    push_firmware_path(
        out,
        bytes_of_text(gpu).as_slice(),
        bytes_of_text(kind).as_slice(),
        version,
    );
    push_ascii(out, "\n");
}

fn push_link_entry(out: &mut Vec<u8>, link: &Link)
    ensures
        final(out)@ == old(out)@ + link_entry(link@),
{
    proof {
        reveal_strlit("Link: nvidia/");
        reveal_strlit(" -> ");
        reveal_strlit("\n");
    }
    push_ascii(out, "Link: nvidia/");
    out.extend_from_slice(link.link.as_slice());
    push_ascii(out, " -> ");
    out.extend_from_slice(link.target.as_slice());
    push_ascii(out, "\n");
}

fn push_origin_entry(out: &mut Vec<u8>, blob: &str, version: &[u8])
    requires
        is_ascii(blob),
    ensures
        final(out)@ == old(out)@ + origin_entry(ascii(blob@), version@),
{
    proof {
        reveal_strlit("Origin: ");
        reveal_strlit(" from NVIDIA-Linux-x86_64-");
        reveal_strlit(".run\n");
    }
    push_ascii(out, "Origin: ");
    push_ascii(out, blob);
    push_ascii(out, " from NVIDIA-Linux-x86_64-");
    out.extend_from_slice(version);
    push_ascii(out, ".run\n");
}

fn push_booter_entries(out: &mut Vec<u8>, gpu: &str, version: &[u8])
    requires
        is_ascii(gpu),
    ensures
        final(out)@ == old(out)@ + booter_entries(ascii(gpu@), version@),
{
    proof {
        reveal_strlit("booter_load");
        reveal_strlit("booter_unload");
    }
    push_file_entry(out, gpu, "booter_load", version);
    push_file_entry(out, gpu, "booter_unload", version);
}

fn push_image_entries(out: &mut Vec<u8>, gpu: &str, version: &[u8])
    requires
        is_ascii(gpu),
    ensures
        final(out)@ == old(out)@ + image_entries(ascii(gpu@), version@),
{
    proof {
        reveal_strlit("bootloader");
    }
    push_file_entry(out, gpu, "bootloader", version);
    push_booter_entries(out, gpu, version);
}

fn push_family_entries(out: &mut Vec<u8>, parent: &str, a: &str, b: &str, c: &str, d: &str)
    requires
        is_ascii(parent),
        is_ascii(a),
        is_ascii(b),
        is_ascii(c),
        is_ascii(d),
    ensures
        final(out)@ == old(out)@ + family_entries(
            ascii(parent@),
            ascii(a@),
            ascii(b@),
            ascii(c@),
            ascii(d@),
        ),
{
    push_link_entry(out, &directory_link_of(a, parent));
    push_link_entry(out, &directory_link_of(b, parent));
    push_link_entry(out, &directory_link_of(c, parent));
    push_link_entry(out, &directory_link_of(d, parent));
}

fn text_section_tu102(version: &[u8]) -> (text: Vec<u8>)
    ensures
        text@ == section_tu102(version@),
{
    proof {
        reveal_strlit("tu102");
        reveal_strlit("tu104");
        reveal_strlit("tu106");
        reveal_strlit("\n");
    }
    let mut text: Vec<u8> = Vec::new();
    push_image_entries(&mut text, "tu102", version);
    push_link_entry(&mut text, &directory_link_of("tu104", "tu102"));
    push_link_entry(&mut text, &directory_link_of("tu106", "tu102"));
    push_ascii(&mut text, "\n");
    text
}

fn text_section_tu116(version: &[u8]) -> (text: Vec<u8>)
    ensures
        text@ == section_tu116(version@),
{
    proof {
        reveal_strlit("tu102");
        reveal_strlit("tu116");
        reveal_strlit("tu117");
        reveal_strlit("bootloader");
        reveal_strlit("\n");
    }
    let mut text: Vec<u8> = Vec::new();
    push_booter_entries(&mut text, "tu116", version);
    push_link_entry(&mut text, &file_link_of("tu116", "tu102", "bootloader", version));
    push_link_entry(&mut text, &directory_link_of("tu117", "tu116"));
    push_ascii(&mut text, "\n");
    text
}

fn text_section_ga100(version: &[u8]) -> (text: Vec<u8>)
    ensures
        text@ == section_ga100(version@),
{
    proof {
        reveal_strlit("ga100");
        reveal_strlit("\n");
    }
    let mut text: Vec<u8> = Vec::new();
    push_image_entries(&mut text, "ga100", version);
    push_ascii(&mut text, "\n");
    text
}

fn text_section_ad102(version: &[u8]) -> (text: Vec<u8>)
    ensures
        text@ == section_ad102(version@),
{
    proof {
        reveal_strlit("ad102");
        reveal_strlit("ad103");
        reveal_strlit("ad104");
        reveal_strlit("ad106");
        reveal_strlit("ad107");
        reveal_strlit("\n");
    }
    let mut text: Vec<u8> = Vec::new();
    push_image_entries(&mut text, "ad102", version);
    push_family_entries(&mut text, "ad102", "ad103", "ad104", "ad106", "ad107");
    push_ascii(&mut text, "\n");
    text
}

fn text_section_ga102(version: &[u8]) -> (text: Vec<u8>)
    ensures
        text@ == section_ga102(version@),
{
    proof {
        reveal_strlit("ga102");
        reveal_strlit("ga103");
        reveal_strlit("ga104");
        reveal_strlit("ga106");
        reveal_strlit("ga107");
        reveal_strlit("\n");
    }
    let mut text: Vec<u8> = Vec::new();
    push_image_entries(&mut text, "ga102", version);
    push_family_entries(&mut text, "ga102", "ga103", "ga104", "ga106", "ga107");
    push_ascii(&mut text, "\n");
    text
}

fn text_section_gsp_tu10x(version: &[u8]) -> (text: Vec<u8>)
    ensures
        text@ == section_gsp_tu10x(version@),
{
    proof {
        reveal_strlit("tu102");
        reveal_strlit("tu116");
        reveal_strlit("ga100");
        reveal_strlit("gsp");
        reveal_strlit("gsp_tu10x.bin");
        reveal_strlit("\n");
    }
    let mut text: Vec<u8> = Vec::new();
    push_file_entry(&mut text, "tu102", "gsp", version);
    push_origin_entry(&mut text, "gsp_tu10x.bin", version);
    push_link_entry(&mut text, &file_link_of("tu116", "tu102", "gsp", version));
    push_link_entry(&mut text, &file_link_of("ga100", "tu102", "gsp", version));
    push_ascii(&mut text, "\n");
    text
}

fn text_section_gsp_ga10x(version: &[u8]) -> (text: Vec<u8>)
    ensures
        text@ == section_gsp_ga10x(version@),
{
    proof {
        reveal_strlit("ga102");
        reveal_strlit("ad102");
        reveal_strlit("gsp");
        reveal_strlit("gsp_ga10x.bin");
    }
    let mut text: Vec<u8> = Vec::new();
    push_file_entry(&mut text, "ga102", "gsp", version);
    push_origin_entry(&mut text, "gsp_ga10x.bin", version);
    push_link_entry(&mut text, &file_link_of("ad102", "ga102", "gsp", version));
    text
}

/// The text of the file that lists the firmware files of `version` and
/// where they come from.
pub fn whence_text(version: &[u8]) -> (text: Vec<u8>)
    ensures
        text@ == whence(version@),
{
    let mut text = text_section_tu102(version);
    text.extend_from_slice(text_section_tu116(version).as_slice());
    text.extend_from_slice(text_section_ga100(version).as_slice());
    text.extend_from_slice(text_section_ad102(version).as_slice());
    text.extend_from_slice(text_section_ga102(version).as_slice());
    text.extend_from_slice(text_section_gsp_tu10x(version).as_slice());
    text.extend_from_slice(text_section_gsp_ga10x(version).as_slice());
    text
}

} // verus!
