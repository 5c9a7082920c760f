//! Recognition of virtual-machine hardware identities, and the web view
//! renderer that suits the machine.
use vstd::prelude::*;
use crate::text::{chars_of, contains, contains_seq, lower_seq, to_lower, vec_eq};

verus! {

/// Lower-case fragments that only virtual hardware reports as its identity.
pub open spec fn vm_markers() -> Seq<Seq<char>> {
    seq![
        "bhyve"@, "bochs"@, "hyper-v"@, "innotek"@, "kvm"@, "microsoft corporation"@,
        "parallels"@, "qemu"@, "virtual machine"@, "virtualbox"@, "vmware"@, "xen"@,
    ]
}

/// The identity text, ASCII-lower-cased, contains one of the markers.
pub open spec fn identifies_vm(value: Seq<char>) -> bool {
    exists|i: int| 0 <= i < vm_markers().len() && contains_seq(lower_seq(value), #[trigger] vm_markers()[i])
}

fn vm_marker_list() -> (r: Vec<&'static str>)
    ensures
        r@.len() == vm_markers().len(),
        forall|i: int| 0 <= i < r@.len() ==> #[trigger] r@[i]@ == vm_markers()[i],
{
    vec![
        "bhyve", "bochs", "hyper-v", "innotek", "kvm", "microsoft corporation",
        "parallels", "qemu", "virtual machine", "virtualbox", "vmware", "xen",
    ]
}

/// Whether a DMI/CPU identity string names a hypervisor.
pub fn text_identifies_virtual_machine(value: &str) -> (r: bool)
    ensures
        r == identifies_vm(value@),
{
    let normalized = to_lower(&chars_of(value));
    let markers = vm_marker_list();
    let mut i: usize = 0;
    while i < markers.len()
        invariant
            i <= markers.len(),
            markers@.len() == vm_markers().len(),
            forall|k: int| 0 <= k < markers@.len() ==> #[trigger] markers@[k]@ == vm_markers()[k],
            normalized@ == lower_seq(value@),
            forall|k: int| 0 <= k < i ==> !contains_seq(lower_seq(value@), #[trigger] vm_markers()[k]),
        decreases markers.len() - i,
    {
        let marker = chars_of(markers[i]);
        if contains(&normalized, &marker) {
            assert(contains_seq(lower_seq(value@), vm_markers()[i as int]));
            return true;
        }
        i += 1;
    }
    false
}


/// Whether any of the identity texts that could be read (`None` for a file
/// that could not) names a hypervisor.
pub fn identities_show_virtual_machine(texts: &Vec<Option<String>>) -> (r: bool)
    ensures
        r == exists|k: int|
            0 <= k < texts@.len() && (#[trigger] texts@[k] matches Some(t) && identifies_vm(t@)),
{
    let mut i: usize = 0;
    while i < texts.len()
        invariant
            i <= texts.len(),
            forall|k: int|
                0 <= k < i ==> !(#[trigger] texts@[k] matches Some(t) && identifies_vm(t@)),
        decreases texts.len() - i,
    {
        if let Some(t) = &texts[i] {
            if text_identifies_virtual_machine(t.as_str()) {
                assert(texts@[i as int] matches Some(t) && identifies_vm(t@));
                return true;
            }
        }
        i += 1;
    }
    false
}

/// How the web view renders: as asked, or by detecting a virtual machine.
#[derive(Clone, Copy, Debug, PartialEq, Eq, Structural)]
pub enum RendererMode {
    Hardware,
    Software,
    Detect,
}

/// The renderer asked for (the setting, "auto" when unset), read without
/// regard to ASCII case: "hardware", "software", anything else detects.
pub open spec fn renderer_spec(requested: Option<Seq<char>>) -> RendererMode {
    let mode = lower_seq(
        match requested {
            Some(r) => r,
            None => "auto"@,
        },
    );
    if mode == "hardware"@ {
        RendererMode::Hardware
    } else if mode == "software"@ {
        RendererMode::Software
    } else {
        RendererMode::Detect
    }
}

/// The renderer mode a setting asks for (see `renderer_spec`).
pub fn renderer_mode(requested: Option<&str>) -> (r: RendererMode)
    ensures
        r == renderer_spec(
            match requested {
                Some(s) => Some(s@),
                None => None,
            },
        ),
{
    let mode = to_lower(
        &chars_of(
            match requested {
                Some(s) => s,
                None => "auto",
            },
        ),
    );
    if vec_eq(&mode, &chars_of("hardware")) {
        RendererMode::Hardware
    } else if vec_eq(&mode, &chars_of("software")) {
        RendererMode::Software
    } else {
        RendererMode::Detect
    }
}

/// The settings that switch WebKitGTK to its compatible renderer, each set
/// only where the environment does not already hold it.
pub fn software_renderer_settings() -> (r: Vec<(&'static str, &'static str)>)
    ensures
        r@.len() == 2,
        r@[0].0@ == "WEBKIT_DISABLE_DMABUF_RENDERER"@ && r@[0].1@ == "1"@,
        r@[1].0@ == "WEBKIT_DISABLE_COMPOSITING_MODE"@ && r@[1].1@ == "1"@,
{
    vec![("WEBKIT_DISABLE_DMABUF_RENDERER", "1"), ("WEBKIT_DISABLE_COMPOSITING_MODE", "1")]
}

} // verus!
