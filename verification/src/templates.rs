//! The named sandbox templates and their parameter presets.
//!
//! A template names a root filesystem location, the base-image archive to
//! fetch, where to stage it, and the parameter set for the creation call.
//! The presets are assembled through the builder calls of
//! [`ParameterSet`], one entry at a time, and their exact contents are
//! part of this module's contract. The namespace-only template needs no
//! base image: its archive fields are empty and provisioning it reduces
//! to the creation stage.

use vstd::prelude::*;

use crate::config::name_key;
use crate::params::EntryView;
use crate::params::ParameterSet;
use crate::params::ValueView;
use crate::params::has_path;
use crate::params::keys_unique;
use crate::params::path_key;
use crate::params::path_key_bytes;
use crate::params::set_unambiguous;
use crate::params::set_wf;
use crate::params::text_image;

verus! {

/// The closed set of template variants.
#[derive(Clone, Copy, Debug, PartialEq, Eq, Structural)]
pub enum TemplateKind {
    /// A jail over the host's root, for its network namespace alone.
    NetworkNamespaceOnly,
    /// A FreeBSD base system unpacked under a fresh root.
    FreeBSDBase,
    /// A Linux base image unpacked under a fresh root.
    LinuxBase,
}

/// The bytes of `vnet`.
pub open spec fn vnet_key_spec() -> Seq<u8> {
    seq![118u8, 110u8, 101u8, 116u8]
}

pub fn vnet_key_bytes() -> (r: Vec<u8>)
    ensures
        r@ == vnet_key_spec(),
{
    let mut r: Vec<u8> = Vec::new();
    r.push(118);
    r.push(110);
    r.push(101);
    r.push(116);
    assert(r@ =~= vnet_key_spec());
    r
}

/// The bytes of `children.max`.
pub open spec fn children_max_key_spec() -> Seq<u8> {
    seq![99u8, 104u8, 105u8, 108u8, 100u8, 114u8, 101u8, 110u8, 46u8, 109u8, 97u8, 120u8]
}

pub fn children_max_key_bytes() -> (r: Vec<u8>)
    ensures
        r@ == children_max_key_spec(),
{
    let mut r: Vec<u8> = Vec::new();
    r.push(99);
    r.push(104);
    r.push(105);
    r.push(108);
    r.push(100);
    r.push(114);
    r.push(101);
    r.push(110);
    r.push(46);
    r.push(109);
    r.push(97);
    r.push(120);
    assert(r@ =~= children_max_key_spec());
    r
}

/// The bytes of `persist`.
pub open spec fn persist_key_spec() -> Seq<u8> {
    seq![112u8, 101u8, 114u8, 115u8, 105u8, 115u8, 116u8]
}

pub fn persist_key_bytes() -> (r: Vec<u8>)
    ensures
        r@ == persist_key_spec(),
{
    let mut r: Vec<u8> = Vec::new();
    r.push(112);
    r.push(101);
    r.push(114);
    r.push(115);
    r.push(105);
    r.push(115);
    r.push(116);
    assert(r@ =~= persist_key_spec());
    r
}

/// The bytes of `host.hostname`.
pub open spec fn hostname_key_spec() -> Seq<u8> {
    seq![104u8, 111u8, 115u8, 116u8, 46u8, 104u8, 111u8, 115u8, 116u8, 110u8, 97u8, 109u8, 101u8]
}

pub fn hostname_key_bytes() -> (r: Vec<u8>)
    ensures
        r@ == hostname_key_spec(),
{
    let mut r: Vec<u8> = Vec::new();
    r.push(104);
    r.push(111);
    r.push(115);
    r.push(116);
    r.push(46);
    r.push(104);
    r.push(111);
    r.push(115);
    r.push(116);
    r.push(110);
    r.push(97);
    r.push(109);
    r.push(101);
    assert(r@ =~= hostname_key_spec());
    r
}

/// The bytes of `allow.mount.procfs`.
pub open spec fn procfs_key_spec() -> Seq<u8> {
    seq![97u8, 108u8, 108u8, 111u8, 119u8, 46u8, 109u8, 111u8, 117u8, 110u8, 116u8, 46u8, 112u8, 114u8, 111u8, 99u8, 102u8, 115u8]
}

pub fn procfs_key_bytes() -> (r: Vec<u8>)
    ensures
        r@ == procfs_key_spec(),
{
    let mut r: Vec<u8> = Vec::new();
    r.push(97);
    r.push(108);
    r.push(108);
    r.push(111);
    r.push(119);
    r.push(46);
    r.push(109);
    r.push(111);
    r.push(117);
    r.push(110);
    r.push(116);
    r.push(46);
    r.push(112);
    r.push(114);
    r.push(111);
    r.push(99);
    r.push(102);
    r.push(115);
    assert(r@ =~= procfs_key_spec());
    r
}

/// The bytes of `allow.mount.devfs`.
pub open spec fn devfs_key_spec() -> Seq<u8> {
    seq![97u8, 108u8, 108u8, 111u8, 119u8, 46u8, 109u8, 111u8, 117u8, 110u8, 116u8, 46u8, 100u8, 101u8, 118u8, 102u8, 115u8]
}

pub fn devfs_key_bytes() -> (r: Vec<u8>)
    ensures
        r@ == devfs_key_spec(),
{
    let mut r: Vec<u8> = Vec::new();
    r.push(97);
    r.push(108);
    r.push(108);
    r.push(111);
    r.push(119);
    r.push(46);
    r.push(109);
    r.push(111);
    r.push(117);
    r.push(110);
    r.push(116);
    r.push(46);
    r.push(100);
    r.push(101);
    r.push(118);
    r.push(102);
    r.push(115);
    assert(r@ =~= devfs_key_spec());
    r
}

/// The bytes of `/`.
pub open spec fn root_slash_spec() -> Seq<u8> {
    seq![47u8]
}

pub fn root_slash_bytes() -> (r: Vec<u8>)
    ensures
        r@ == root_slash_spec(),
{
    let mut r: Vec<u8> = Vec::new();
    r.push(47);
    assert(r@ =~= root_slash_spec());
    r
}

/// The bytes of `/tmp/jails/freebsd/rootfs`.
pub open spec fn freebsd_rootfs_spec() -> Seq<u8> {
    seq![47u8, 116u8, 109u8, 112u8, 47u8, 106u8, 97u8, 105u8, 108u8, 115u8, 47u8, 102u8, 114u8, 101u8, 101u8, 98u8, 115u8, 100u8, 47u8, 114u8, 111u8, 111u8, 116u8, 102u8, 115u8]
}

pub fn freebsd_rootfs_bytes() -> (r: Vec<u8>)
    ensures
        r@ == freebsd_rootfs_spec(),
{
    let mut r: Vec<u8> = Vec::new();
    r.push(47);
    r.push(116);
    r.push(109);
    r.push(112);
    r.push(47);
    r.push(106);
    r.push(97);
    r.push(105);
    r.push(108);
    r.push(115);
    r.push(47);
    r.push(102);
    r.push(114);
    r.push(101);
    r.push(101);
    r.push(98);
    r.push(115);
    r.push(100);
    r.push(47);
    r.push(114);
    r.push(111);
    r.push(111);
    r.push(116);
    r.push(102);
    r.push(115);
    assert(r@ =~= freebsd_rootfs_spec());
    r
}

/// The bytes of `test-jail`.
pub open spec fn freebsd_name_spec() -> Seq<u8> {
    seq![116u8, 101u8, 115u8, 116u8, 45u8, 106u8, 97u8, 105u8, 108u8]
}

pub fn freebsd_name_bytes() -> (r: Vec<u8>)
    ensures
        r@ == freebsd_name_spec(),
{
    let mut r: Vec<u8> = Vec::new();
    r.push(116);
    r.push(101);
    r.push(115);
    r.push(116);
    r.push(45);
    r.push(106);
    r.push(97);
    r.push(105);
    r.push(108);
    assert(r@ =~= freebsd_name_spec());
    r
}

/// The bytes of `freebsd.org`.
pub open spec fn freebsd_hostname_spec() -> Seq<u8> {
    seq![102u8, 114u8, 101u8, 101u8, 98u8, 115u8, 100u8, 46u8, 111u8, 114u8, 103u8]
}

pub fn freebsd_hostname_bytes() -> (r: Vec<u8>)
    ensures
        r@ == freebsd_hostname_spec(),
{
    let mut r: Vec<u8> = Vec::new();
    r.push(102);
    r.push(114);
    r.push(101);
    r.push(101);
    r.push(98);
    r.push(115);
    r.push(100);
    r.push(46);
    r.push(111);
    r.push(114);
    r.push(103);
    assert(r@ =~= freebsd_hostname_spec());
    r
}

/// The bytes of `https://download.freebsd.org/releases/amd64/14.2-RELEASE/base.txz`.
pub open spec fn freebsd_url_spec() -> Seq<u8> {
    seq![104u8, 116u8, 116u8, 112u8, 115u8, 58u8, 47u8, 47u8, 100u8, 111u8, 119u8, 110u8, 108u8, 111u8, 97u8, 100u8, 46u8, 102u8, 114u8, 101u8, 101u8, 98u8, 115u8, 100u8, 46u8, 111u8, 114u8, 103u8, 47u8, 114u8, 101u8, 108u8, 101u8, 97u8, 115u8, 101u8, 115u8, 47u8, 97u8, 109u8, 100u8, 54u8, 52u8, 47u8, 49u8, 52u8, 46u8, 50u8, 45u8, 82u8, 69u8, 76u8, 69u8, 65u8, 83u8, 69u8, 47u8, 98u8, 97u8, 115u8, 101u8, 46u8, 116u8, 120u8, 122u8]
}

pub fn freebsd_url_bytes() -> (r: Vec<u8>)
    ensures
        r@ == freebsd_url_spec(),
{
    let mut r: Vec<u8> = Vec::new();
    r.push(104);
    r.push(116);
    r.push(116);
    r.push(112);
    r.push(115);
    r.push(58);
    r.push(47);
    r.push(47);
    r.push(100);
    r.push(111);
    r.push(119);
    r.push(110);
    r.push(108);
    r.push(111);
    r.push(97);
    r.push(100);
    r.push(46);
    r.push(102);
    r.push(114);
    r.push(101);
    r.push(101);
    r.push(98);
    r.push(115);
    r.push(100);
    r.push(46);
    r.push(111);
    r.push(114);
    r.push(103);
    r.push(47);
    r.push(114);
    r.push(101);
    r.push(108);
    r.push(101);
    r.push(97);
    r.push(115);
    r.push(101);
    r.push(115);
    r.push(47);
    r.push(97);
    r.push(109);
    r.push(100);
    r.push(54);
    r.push(52);
    r.push(47);
    r.push(49);
    r.push(52);
    r.push(46);
    r.push(50);
    r.push(45);
    r.push(82);
    r.push(69);
    r.push(76);
    r.push(69);
    r.push(65);
    r.push(83);
    r.push(69);
    r.push(47);
    r.push(98);
    r.push(97);
    r.push(115);
    r.push(101);
    r.push(46);
    r.push(116);
    r.push(120);
    r.push(122);
    assert(r@ =~= freebsd_url_spec());
    r
}

/// The bytes of `/tmp/freebsd_base.txz`.
pub open spec fn freebsd_archive_spec() -> Seq<u8> {
    seq![47u8, 116u8, 109u8, 112u8, 47u8, 102u8, 114u8, 101u8, 101u8, 98u8, 115u8, 100u8, 95u8, 98u8, 97u8, 115u8, 101u8, 46u8, 116u8, 120u8, 122u8]
}

pub fn freebsd_archive_bytes() -> (r: Vec<u8>)
    ensures
        r@ == freebsd_archive_spec(),
{
    let mut r: Vec<u8> = Vec::new();
    r.push(47);
    r.push(116);
    r.push(109);
    r.push(112);
    r.push(47);
    r.push(102);
    r.push(114);
    r.push(101);
    r.push(101);
    r.push(98);
    r.push(115);
    r.push(100);
    r.push(95);
    r.push(98);
    r.push(97);
    r.push(115);
    r.push(101);
    r.push(46);
    r.push(116);
    r.push(120);
    r.push(122);
    assert(r@ =~= freebsd_archive_spec());
    r
}

/// The bytes of `/tmp/jails/linux/rootfs`.
pub open spec fn linux_rootfs_spec() -> Seq<u8> {
    seq![47u8, 116u8, 109u8, 112u8, 47u8, 106u8, 97u8, 105u8, 108u8, 115u8, 47u8, 108u8, 105u8, 110u8, 117u8, 120u8, 47u8, 114u8, 111u8, 111u8, 116u8, 102u8, 115u8]
}

pub fn linux_rootfs_bytes() -> (r: Vec<u8>)
    ensures
        r@ == linux_rootfs_spec(),
{
    let mut r: Vec<u8> = Vec::new();
    r.push(47);
    r.push(116);
    r.push(109);
    r.push(112);
    r.push(47);
    r.push(106);
    r.push(97);
    r.push(105);
    r.push(108);
    r.push(115);
    r.push(47);
    r.push(108);
    r.push(105);
    r.push(110);
    r.push(117);
    r.push(120);
    r.push(47);
    r.push(114);
    r.push(111);
    r.push(111);
    r.push(116);
    r.push(102);
    r.push(115);
    assert(r@ =~= linux_rootfs_spec());
    r
}

/// The bytes of `linux-jail`.
pub open spec fn linux_name_spec() -> Seq<u8> {
    seq![108u8, 105u8, 110u8, 117u8, 120u8, 45u8, 106u8, 97u8, 105u8, 108u8]
}

pub fn linux_name_bytes() -> (r: Vec<u8>)
    ensures
        r@ == linux_name_spec(),
{
    let mut r: Vec<u8> = Vec::new();
    r.push(108);
    r.push(105);
    r.push(110);
    r.push(117);
    r.push(120);
    r.push(45);
    r.push(106);
    r.push(97);
    r.push(105);
    r.push(108);
    assert(r@ =~= linux_name_spec());
    r
}

/// The bytes of `linux.org`.
pub open spec fn linux_hostname_spec() -> Seq<u8> {
    seq![108u8, 105u8, 110u8, 117u8, 120u8, 46u8, 111u8, 114u8, 103u8]
}

pub fn linux_hostname_bytes() -> (r: Vec<u8>)
    ensures
        r@ == linux_hostname_spec(),
{
    let mut r: Vec<u8> = Vec::new();
    r.push(108);
    r.push(105);
    r.push(110);
    r.push(117);
    r.push(120);
    r.push(46);
    r.push(111);
    r.push(114);
    r.push(103);
    assert(r@ =~= linux_hostname_spec());
    r
}

/// The first half of the Linux base-image URL.
pub open spec fn linux_url_head_spec() -> Seq<u8> {
    seq![104u8, 116u8, 116u8, 112u8, 115u8, 58u8, 47u8, 47u8, 112u8, 97u8, 114u8, 116u8, 110u8, 101u8, 114u8, 45u8, 105u8, 109u8, 97u8, 103u8, 101u8, 115u8, 46u8, 99u8, 97u8, 110u8, 111u8, 110u8, 105u8, 99u8, 97u8, 108u8, 46u8, 99u8, 111u8, 109u8, 47u8, 99u8, 111u8, 114u8, 101u8, 47u8, 106u8, 97u8, 109u8, 109u8, 121u8, 47u8, 99u8, 117u8, 114u8]
}

fn linux_url_head_bytes() -> (r: Vec<u8>)
    ensures
        r@ == linux_url_head_spec(),
{
    let mut r: Vec<u8> = Vec::new();
    r.push(104);
    r.push(116);
    r.push(116);
    r.push(112);
    r.push(115);
    r.push(58);
    r.push(47);
    r.push(47);
    r.push(112);
    r.push(97);
    r.push(114);
    r.push(116);
    r.push(110);
    r.push(101);
    r.push(114);
    r.push(45);
    r.push(105);
    r.push(109);
    r.push(97);
    r.push(103);
    r.push(101);
    r.push(115);
    r.push(46);
    r.push(99);
    r.push(97);
    r.push(110);
    r.push(111);
    r.push(110);
    r.push(105);
    r.push(99);
    r.push(97);
    r.push(108);
    r.push(46);
    r.push(99);
    r.push(111);
    r.push(109);
    r.push(47);
    r.push(99);
    r.push(111);
    r.push(114);
    r.push(101);
    r.push(47);
    r.push(106);
    r.push(97);
    r.push(109);
    r.push(109);
    r.push(121);
    r.push(47);
    r.push(99);
    r.push(117);
    r.push(114);
    assert(r@ =~= linux_url_head_spec());
    r
}

/// The second half of the Linux base-image URL.
pub open spec fn linux_url_tail_spec() -> Seq<u8> {
    seq![114u8, 101u8, 110u8, 116u8, 47u8, 117u8, 98u8, 117u8, 110u8, 116u8, 117u8, 45u8, 106u8, 97u8, 109u8, 109u8, 121u8, 45u8, 99u8, 111u8, 114u8, 101u8, 45u8, 99u8, 108u8, 111u8, 117u8, 100u8, 105u8, 109u8, 103u8, 45u8, 97u8, 109u8, 100u8, 54u8, 52u8, 45u8, 114u8, 111u8, 111u8, 116u8, 46u8, 116u8, 97u8, 114u8, 46u8, 103u8, 122u8]
}

fn linux_url_tail_bytes() -> (r: Vec<u8>)
    ensures
        r@ == linux_url_tail_spec(),
{
    let mut r: Vec<u8> = Vec::new();
    r.push(114);
    r.push(101);
    r.push(110);
    r.push(116);
    r.push(47);
    r.push(117);
    r.push(98);
    r.push(117);
    r.push(110);
    r.push(116);
    r.push(117);
    r.push(45);
    r.push(106);
    r.push(97);
    r.push(109);
    r.push(109);
    r.push(121);
    r.push(45);
    r.push(99);
    r.push(111);
    r.push(114);
    r.push(101);
    r.push(45);
    r.push(99);
    r.push(108);
    r.push(111);
    r.push(117);
    r.push(100);
    r.push(105);
    r.push(109);
    r.push(103);
    r.push(45);
    r.push(97);
    r.push(109);
    r.push(100);
    r.push(54);
    r.push(52);
    r.push(45);
    r.push(114);
    r.push(111);
    r.push(111);
    r.push(116);
    r.push(46);
    r.push(116);
    r.push(97);
    r.push(114);
    r.push(46);
    r.push(103);
    r.push(122);
    assert(r@ =~= linux_url_tail_spec());
    r
}

/// The bytes of the Linux base-image URL.
pub open spec fn linux_url_spec() -> Seq<u8> {
    linux_url_head_spec() + linux_url_tail_spec()
}

pub fn linux_url_bytes() -> (r: Vec<u8>)
    ensures
        r@ == linux_url_spec(),
{
    let mut r = linux_url_head_bytes();
    let tail = linux_url_tail_bytes();
    crate::util::push_bytes(&mut r, &tail);
    r
}

/// The bytes of `/tmp/linux_base.txz`.
pub open spec fn linux_archive_spec() -> Seq<u8> {
    seq![47u8, 116u8, 109u8, 112u8, 47u8, 108u8, 105u8, 110u8, 117u8, 120u8, 95u8, 98u8, 97u8, 115u8, 101u8, 46u8, 116u8, 120u8, 122u8]
}

pub fn linux_archive_bytes() -> (r: Vec<u8>)
    ensures
        r@ == linux_archive_spec(),
{
    let mut r: Vec<u8> = Vec::new();
    r.push(47);
    r.push(116);
    r.push(109);
    r.push(112);
    r.push(47);
    r.push(108);
    r.push(105);
    r.push(110);
    r.push(117);
    r.push(120);
    r.push(95);
    r.push(98);
    r.push(97);
    r.push(115);
    r.push(101);
    r.push(46);
    r.push(116);
    r.push(120);
    r.push(122);
    assert(r@ =~= linux_archive_spec());
    r
}

/// The bytes of the `name` key (shared with the config grammar).
pub fn name_key_bytes() -> (r: Vec<u8>)
    ensures
        r@ == name_key(),
{
    crate::config::name_key_bytes()
}

/// The exact parameter entries each template hands to the creation call.
pub open spec fn template_params_spec(kind: TemplateKind) -> Seq<EntryView> {
    match kind {
        TemplateKind::NetworkNamespaceOnly => seq![
            EntryView { key: path_key(), value: ValueView::Text(root_slash_spec()) },
            EntryView { key: vnet_key_spec(), value: ValueView::Integer(1) },
            EntryView { key: children_max_key_spec(), value: ValueView::Integer(99) },
            EntryView { key: persist_key_spec(), value: ValueView::Flag },
        ],
        TemplateKind::FreeBSDBase => seq![
            EntryView { key: path_key(), value: ValueView::Text(freebsd_rootfs_spec()) },
            EntryView { key: name_key(), value: ValueView::Text(freebsd_name_spec()) },
            EntryView { key: hostname_key_spec(), value: ValueView::Text(freebsd_hostname_spec()) },
            EntryView { key: vnet_key_spec(), value: ValueView::Integer(1) },
            EntryView { key: procfs_key_spec(), value: ValueView::Flag },
            EntryView { key: devfs_key_spec(), value: ValueView::Flag },
            EntryView { key: children_max_key_spec(), value: ValueView::Integer(99) },
            EntryView { key: persist_key_spec(), value: ValueView::Flag },
        ],
        TemplateKind::LinuxBase => seq![
            EntryView { key: path_key(), value: ValueView::Text(linux_rootfs_spec()) },
            EntryView { key: name_key(), value: ValueView::Text(linux_name_spec()) },
            EntryView { key: hostname_key_spec(), value: ValueView::Text(linux_hostname_spec()) },
            EntryView { key: vnet_key_spec(), value: ValueView::Integer(1) },
            EntryView { key: procfs_key_spec(), value: ValueView::Flag },
            EntryView { key: devfs_key_spec(), value: ValueView::Flag },
            EntryView { key: children_max_key_spec(), value: ValueView::Integer(99) },
            EntryView { key: persist_key_spec(), value: ValueView::Flag },
        ],
    }
}

/// Builds the preset parameter set of a template.
pub fn template_params(kind: TemplateKind) -> (r: ParameterSet)
    ensures
        r@ == template_params_spec(kind),
        set_wf(r@),
        keys_unique(r@),
        has_path(r@),
        set_unambiguous(r@),
{
    proof {
        lemma_template_params_wf(kind);
    }
    let mut ps = ParameterSet::new();
    match kind {
        TemplateKind::NetworkNamespaceOnly => {
            ps.push_text(path_key_bytes(), root_slash_bytes());
            ps.push_integer(vnet_key_bytes(), 1);
            ps.push_integer(children_max_key_bytes(), 99);
            ps.push_flag(persist_key_bytes());
        },
        TemplateKind::FreeBSDBase => {
            ps.push_text(path_key_bytes(), freebsd_rootfs_bytes());
            ps.push_text(name_key_bytes(), freebsd_name_bytes());
            ps.push_text(hostname_key_bytes(), freebsd_hostname_bytes());
            ps.push_integer(vnet_key_bytes(), 1);
            ps.push_flag(procfs_key_bytes());
            ps.push_flag(devfs_key_bytes());
            ps.push_integer(children_max_key_bytes(), 99);
            ps.push_flag(persist_key_bytes());
        },
        TemplateKind::LinuxBase => {
            ps.push_text(path_key_bytes(), linux_rootfs_bytes());
            ps.push_text(name_key_bytes(), linux_name_bytes());
            ps.push_text(hostname_key_bytes(), linux_hostname_bytes());
            ps.push_integer(vnet_key_bytes(), 1);
            ps.push_flag(procfs_key_bytes());
            ps.push_flag(devfs_key_bytes());
            ps.push_integer(children_max_key_bytes(), 99);
            ps.push_flag(persist_key_bytes());
        },
    }
    assert(ps@ =~= template_params_spec(kind));
    ps
}

/// Every preset is well-formed: null-free, unique keys, a `path` entry
/// present, and no integer whose payload could read back as text.
pub proof fn lemma_template_params_wf(kind: TemplateKind)
    ensures
        set_wf(template_params_spec(kind)),
        keys_unique(template_params_spec(kind)),
        has_path(template_params_spec(kind)),
        set_unambiguous(template_params_spec(kind)),
{
    let s = template_params_spec(kind);
    crate::codec::lemma_small_i32_payload(1);
    crate::codec::lemma_small_i32_payload(99);
    assert(!text_image(crate::codec::i32_payload(1)));
    assert(!text_image(crate::codec::i32_payload(99)));
    assert(s[0].key == path_key());
    assert(has_path(s));
}

/// A template: where its root lives, where its base image comes from and
/// is staged, and the parameters of its creation call.
pub struct TemplateSpec {
    pub kind: TemplateKind,
    pub rootfs_path: Vec<u8>,
    pub download_url: Vec<u8>,
    pub archive_local_path: Vec<u8>,
    pub sandbox_params: ParameterSet,
}

/// The root filesystem location of a template.
pub open spec fn rootfs_path_spec(kind: TemplateKind) -> Seq<u8> {
    match kind {
        TemplateKind::NetworkNamespaceOnly => root_slash_spec(),
        TemplateKind::FreeBSDBase => freebsd_rootfs_spec(),
        TemplateKind::LinuxBase => linux_rootfs_spec(),
    }
}

/// The base-image source of a template; empty when none is needed.
pub open spec fn download_url_spec(kind: TemplateKind) -> Seq<u8> {
    match kind {
        TemplateKind::NetworkNamespaceOnly => Seq::<u8>::empty(),
        TemplateKind::FreeBSDBase => freebsd_url_spec(),
        TemplateKind::LinuxBase => linux_url_spec(),
    }
}

/// Where the fetched archive is staged; empty when none is needed.
pub open spec fn archive_path_spec(kind: TemplateKind) -> Seq<u8> {
    match kind {
        TemplateKind::NetworkNamespaceOnly => Seq::<u8>::empty(),
        TemplateKind::FreeBSDBase => freebsd_archive_spec(),
        TemplateKind::LinuxBase => linux_archive_spec(),
    }
}

/// Builds the full template description for a variant.
pub fn template_spec(kind: TemplateKind) -> (r: TemplateSpec)
    ensures
        r.kind == kind,
        r.rootfs_path@ == rootfs_path_spec(kind),
        r.download_url@ == download_url_spec(kind),
        r.archive_local_path@ == archive_path_spec(kind),
        r.sandbox_params@ == template_params_spec(kind),
{
    match kind {
        TemplateKind::NetworkNamespaceOnly => TemplateSpec {
            kind,
            rootfs_path: root_slash_bytes(),
            download_url: Vec::new(),
            archive_local_path: Vec::new(),
            sandbox_params: template_params(kind),
        },
        TemplateKind::FreeBSDBase => TemplateSpec {
            kind,
            rootfs_path: freebsd_rootfs_bytes(),
            download_url: freebsd_url_bytes(),
            archive_local_path: freebsd_archive_bytes(),
            sandbox_params: template_params(kind),
        },
        TemplateKind::LinuxBase => TemplateSpec {
            kind,
            rootfs_path: linux_rootfs_bytes(),
            download_url: linux_url_bytes(),
            archive_local_path: linux_archive_bytes(),
            sandbox_params: template_params(kind),
        },
    }
}

} // verus!
