//! Static fingerprints: what the host says of itself, held against tables of
//! names, address prefixes and files that virtual machines are known by.

use vstd::prelude::*;
use crate::detect::any_positive;
use crate::text::{chars_of, contains, lowercase_of, occurs_in, starts_with, to_lowercase};

verus! {

/// Words that betray a virtual machine, all in lowercase.
pub open spec fn suspicious_keywords() -> Seq<Seq<char>> {
    seq![
        "vmware"@,
        "virtual"@,
        "vbox"@,
        "qemu"@,
        "hyper-v"@,
        "xen"@,
        "parallels"@,
        "kvm"@,
    ]
}

/// `text` holds at least one of the suspicious keywords, letter for letter.
pub open spec fn names_vm(text: Seq<char>) -> bool {
    exists|k: int|
        0 <= k < suspicious_keywords().len() && occurs_in(#[trigger] suspicious_keywords()[k], text)
}

/// `text` holds a suspicious keyword once it is brought to lowercase.
pub open spec fn mentions_vm(text: Seq<char>) -> bool {
    names_vm(lowercase_of(text))
}

/// The keyword fingerprint is blind to case: two texts with the same
/// lowercase form are judged alike.
pub proof fn lemma_mentions_vm_ignores_case(a: Seq<char>, b: Seq<char>)
    requires
        lowercase_of(a) == lowercase_of(b),
    ensures
        mentions_vm(a) == mentions_vm(b),
{
}

fn keyword_table() -> (table: [&'static str; 8])
    ensures
        table@.len() == suspicious_keywords().len(),
        forall|k: int|
            0 <= k < table@.len() ==> (#[trigger] table@[k])@ == suspicious_keywords()[k],
{
    ["vmware", "virtual", "vbox", "qemu", "hyper-v", "xen", "parallels", "kvm"]
}

/// Whether `text`, taken as it is, holds one of the suspicious keywords.
pub fn holds_keyword(text: &str) -> (found: bool)
    ensures
        found == names_vm(text@),
{
    let hay = chars_of(text);
    let table = keyword_table();
    let mut k: usize = 0;
    while k < table.len()
        invariant
            k <= table@.len() == suspicious_keywords().len(),
            hay@ == text@,
            forall|j: int|
                0 <= j < table@.len() ==> (#[trigger] table@[j])@ == suspicious_keywords()[j],
            forall|j: int| 0 <= j < k ==> !occurs_in(#[trigger] suspicious_keywords()[j], text@),
        decreases table@.len() - k,
    {
        let needle = chars_of(table[k]);
        if contains(hay.as_slice(), needle.as_slice()) {
            return true;
        }
        k += 1;
    }
    false
}

/// Keyword fingerprint: whether the host name, the operating system's
/// version string or the name of any disk mentions a virtual machine,
/// whatever the case of its letters.
pub fn detect_vm_keywords(host_name: &str, os_version: &str, disk_names: &[String]) -> (detected:
    bool)
    ensures
        detected == (mentions_vm(host_name@) || mentions_vm(os_version@) || exists|d: int|
            0 <= d < disk_names@.len() && mentions_vm(#[trigger] disk_names@[d]@)),
{
    if holds_keyword(to_lowercase(host_name).as_str()) {
        return true;
    }
    if holds_keyword(to_lowercase(os_version).as_str()) {
        return true;
    }
    let mut d: usize = 0;
    while d < disk_names.len()
        invariant
            d <= disk_names@.len(),
            forall|j: int| 0 <= j < d ==> !mentions_vm(#[trigger] disk_names@[j]@),
        decreases disk_names@.len() - d,
    {
        if holds_keyword(to_lowercase(disk_names[d].as_str()).as_str()) {
            return true;
        }
        d += 1;
    }
    false
}

/// The first three octets, as lowercase text, of the addresses that the
/// network cards of VMware, VirtualBox and Hyper-V guests are given.
pub open spec fn vm_mac_prefixes() -> Seq<Seq<char>> {
    seq!["00:05:69"@, "00:0c:29"@, "00:1c:14"@, "00:50:56"@, "08:00:27"@, "00:15:5d"@]
}

/// `text` begins with one of the known prefixes, letter for letter.
pub open spec fn has_vm_prefix(text: Seq<char>) -> bool {
    exists|p: int|
        0 <= p < vm_mac_prefixes().len() && (#[trigger] vm_mac_prefixes()[p]).is_prefix_of(text)
}

/// The sixteen hexadecimal digits, letters in upper case.
pub open spec fn upper_hex_digits() -> Seq<char> {
    seq!['0', '1', '2', '3', '4', '5', '6', '7', '8', '9', 'A', 'B', 'C', 'D', 'E', 'F']
}

/// A hardware address written out: each octet as two hexadecimal digits in
/// upper case, the octets parted by colons.
pub open spec fn mac_text(octets: Seq<u8>) -> Seq<char> {
    Seq::new(
        17,
        |i: int|
            if i % 3 == 2 {
                ':'
            } else if i % 3 == 0 {
                upper_hex_digits()[octets[i / 3] as int / 16]
            } else {
                upper_hex_digits()[octets[i / 3] as int % 16]
            },
    )
}

/// Makes a `mac_address::MacAddress` of the octets and formats it through
/// its `Display` impl. That impl writes each octet with `{:<02X}`, which
/// gives two hexadecimal digits in upper case, and puts a colon between
/// neighbours. The contract claims that `mac_text` describes what it
/// writes; this is taken from the crate's source, not proved.
#[verifier::external_body]
fn format_mac(octets: &[u8; 6]) -> (text: String)
    ensures
        text@ == mac_text(octets@),
{
    mac_address::MacAddress::new(*octets).to_string()
}

fn prefix_table() -> (table: [&'static str; 6])
    ensures
        table@.len() == vm_mac_prefixes().len(),
        forall|p: int| 0 <= p < table@.len() ==> (#[trigger] table@[p])@ == vm_mac_prefixes()[p],
{
    ["00:05:69", "00:0c:29", "00:1c:14", "00:50:56", "08:00:27", "00:15:5d"]
}

/// Whether `text`, taken as it is, begins with one of the known prefixes.
pub fn holds_vm_prefix(text: &str) -> (found: bool)
    ensures
        found == has_vm_prefix(text@),
{
    let hay = chars_of(text);
    let table = prefix_table();
    let mut p: usize = 0;
    while p < table.len()
        invariant
            p <= table@.len() == vm_mac_prefixes().len(),
            hay@ == text@,
            forall|j: int|
                0 <= j < table@.len() ==> (#[trigger] table@[j])@ == vm_mac_prefixes()[j],
            forall|j: int| 0 <= j < p ==> !(#[trigger] vm_mac_prefixes()[j]).is_prefix_of(text@),
        decreases table@.len() - p,
    {
        let needle = chars_of(table[p]);
        if starts_with(hay.as_slice(), needle.as_slice()) {
            return true;
        }
        p += 1;
    }
    false
}

/// Whether a hardware address, written as colon-separated hexadecimal
/// text in either case, belongs to a known virtual network card.
pub fn is_vm_mac(text: &str) -> (found: bool)
    ensures
        found == has_vm_prefix(lowercase_of(text@)),
{
    holds_vm_prefix(to_lowercase(text).as_str())
}

/// MAC-prefix fingerprint: whether the primary network card, if the host
/// has one, carries an address that belongs to a known virtual network
/// card.
pub fn detect_vm_mac(mac: Option<[u8; 6]>) -> (detected: bool)
    ensures
        detected == match mac {
            Some(octets) => has_vm_prefix(lowercase_of(mac_text(octets@))),
            None => false,
        },
{
    match mac {
        Some(octets) => is_vm_mac(format_mac(&octets).as_str()),
        None => false,
    }
}

/// Driver files that the guest additions of VMware and VirtualBox install.
pub open spec fn known_artifacts() -> Seq<Seq<char>> {
    seq![
        "C:\\windows\\system32\\drivers\\vmmouse.sys"@,
        "C:\\windows\\system32\\drivers\\vmhgfs.sys"@,
        "C:\\windows\\system32\\drivers\\VBoxMouse.sys"@,
    ]
}

/// The paths to probe for, in the order of `known_artifacts`.
pub fn artifact_paths() -> (paths: [&'static str; 3])
    ensures
        paths@.len() == known_artifacts().len(),
        forall|i: int| 0 <= i < paths@.len() ==> (#[trigger] paths@[i])@ == known_artifacts()[i],
{
    [
        "C:\\windows\\system32\\drivers\\vmmouse.sys",
        "C:\\windows\\system32\\drivers\\vmhgfs.sys",
        "C:\\windows\\system32\\drivers\\VBoxMouse.sys",
    ]
}

/// Filesystem fingerprint: given, for each probed path, whether something
/// exists there, reports whether any artifact was found. A path that could
/// not be probed counts as absent.
pub fn detect_vm_files(present: &[bool]) -> (detected: bool)
    ensures
        detected == any_positive(present@),
{
    let mut i: usize = 0;
    while i < present.len()
        invariant
            i <= present@.len(),
            forall|j: int| 0 <= j < i ==> !present@[j],
        decreases present@.len() - i,
    {
        if present[i] {
            return true;
        }
        i += 1;
    }
    false
}

} // verus!
