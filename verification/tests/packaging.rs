use extract_firmware_nouveau::package::{firmware_file, planned_links, whence_text, Link};

fn text(bytes: &[u8]) -> &str {
    std::str::from_utf8(bytes).unwrap()
}

fn link(directory: &str, link: &str, target: &str) -> Link {
    Link {
        directory: directory.as_bytes().to_vec(),
        link: link.as_bytes().to_vec(),
        target: target.as_bytes().to_vec(),
    }
}

#[test]
fn firmware_files_lie_under_the_chip() {
    assert_eq!(
        text(&firmware_file(b"tu102", b"bootloader", b"535.113.01")),
        "tu102/gsp/bootloader-535.113.01.bin"
    );
    assert_eq!(
        text(&firmware_file(b"ga100", b"booter_unload", b"1.2")),
        "ga100/gsp/booter_unload-1.2.bin"
    );
    assert_eq!(text(&firmware_file(b"", b"", b"")), "/gsp/-.bin");
}

#[test]
fn links_are_planned_in_order() {
    let plan = planned_links(b"535.113.01");
    let expected = vec![
        link("tu104", "tu104/gsp", "../tu102/gsp"),
        link("tu106", "tu106/gsp", "../tu102/gsp"),
        link("tu117", "tu117/gsp", "../tu102/gsp"),
        link("ad103", "ad103/gsp", "../ad102/gsp"),
        link("ad104", "ad104/gsp", "../ad102/gsp"),
        link("ad106", "ad106/gsp", "../ad102/gsp"),
        link("ad107", "ad107/gsp", "../ad102/gsp"),
        link("ga103", "ga103/gsp", "../ga102/gsp"),
        link("ga104", "ga104/gsp", "../ga102/gsp"),
        link("ga106", "ga106/gsp", "../ga102/gsp"),
        link("ga107", "ga107/gsp", "../ga102/gsp"),
        link(
            "tu116/gsp",
            "tu116/gsp/bootloader-535.113.01.bin",
            "../../tu102/gsp/bootloader-535.113.01.bin",
        ),
        link(
            "tu116/gsp",
            "tu116/gsp/gsp-535.113.01.bin",
            "../../tu102/gsp/gsp-535.113.01.bin",
        ),
        link(
            "ga100/gsp",
            "ga100/gsp/gsp-535.113.01.bin",
            "../../tu102/gsp/gsp-535.113.01.bin",
        ),
        link(
            "ad102/gsp",
            "ad102/gsp/gsp-535.113.01.bin",
            "../../ga102/gsp/gsp-535.113.01.bin",
        ),
    ];
    assert_eq!(plan, expected);
}

#[test]
fn link_names_carry_the_version() {
    let plan = planned_links(b"");
    assert_eq!(plan.len(), 15);
    assert_eq!(text(&plan[11].link), "tu116/gsp/bootloader-.bin");
    assert_eq!(text(&plan[14].target), "../../ga102/gsp/gsp-.bin");
}

#[test]
fn whence_lists_files_links_and_origins() {
    let version = "535.113.01";
    let expected = format!(
        "File: nvidia/tu102/gsp/bootloader-{version}.bin
File: nvidia/tu102/gsp/booter_load-{version}.bin
File: nvidia/tu102/gsp/booter_unload-{version}.bin
Link: nvidia/tu104/gsp -> ../tu102/gsp
Link: nvidia/tu106/gsp -> ../tu102/gsp

File: nvidia/tu116/gsp/booter_load-{version}.bin
File: nvidia/tu116/gsp/booter_unload-{version}.bin
Link: nvidia/tu116/gsp/bootloader-{version}.bin -> ../../tu102/gsp/bootloader-{version}.bin
Link: nvidia/tu117/gsp -> ../tu116/gsp

File: nvidia/ga100/gsp/bootloader-{version}.bin
File: nvidia/ga100/gsp/booter_load-{version}.bin
File: nvidia/ga100/gsp/booter_unload-{version}.bin

File: nvidia/ad102/gsp/bootloader-{version}.bin
File: nvidia/ad102/gsp/booter_load-{version}.bin
File: nvidia/ad102/gsp/booter_unload-{version}.bin
Link: nvidia/ad103/gsp -> ../ad102/gsp
Link: nvidia/ad104/gsp -> ../ad102/gsp
Link: nvidia/ad106/gsp -> ../ad102/gsp
Link: nvidia/ad107/gsp -> ../ad102/gsp

File: nvidia/ga102/gsp/bootloader-{version}.bin
File: nvidia/ga102/gsp/booter_load-{version}.bin
File: nvidia/ga102/gsp/booter_unload-{version}.bin
Link: nvidia/ga103/gsp -> ../ga102/gsp
Link: nvidia/ga104/gsp -> ../ga102/gsp
Link: nvidia/ga106/gsp -> ../ga102/gsp
Link: nvidia/ga107/gsp -> ../ga102/gsp

File: nvidia/tu102/gsp/gsp-{version}.bin
Origin: gsp_tu10x.bin from NVIDIA-Linux-x86_64-{version}.run
Link: nvidia/tu116/gsp/gsp-{version}.bin -> ../../tu102/gsp/gsp-{version}.bin
Link: nvidia/ga100/gsp/gsp-{version}.bin -> ../../tu102/gsp/gsp-{version}.bin

File: nvidia/ga102/gsp/gsp-{version}.bin
Origin: gsp_ga10x.bin from NVIDIA-Linux-x86_64-{version}.run
Link: nvidia/ad102/gsp/gsp-{version}.bin -> ../../ga102/gsp/gsp-{version}.bin
"
    );
    assert_eq!(text(&whence_text(version.as_bytes())), expected);
}

#[test]
fn whence_of_another_version() {
    let short = whence_text(b"1.2");
    let long = whence_text(b"535.113.01");
    assert_eq!(text(&short).replace("1.2", "535.113.01"), text(&long));
    assert_eq!(text(&short).lines().count(), 39);
    assert_eq!(text(&short).matches("1.2").count(), 26);
}
