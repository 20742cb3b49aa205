use vstd::prelude::*;
use vstd::utf8::encode_utf8;

use crate::jwt::UserInfo;
use crate::text::{decimal, decimal_string, hex_byte, join_path, joined, push_char, push_hex_byte, same_text};

verus! {

/// A registered proxy instance.
#[derive(Debug, Clone, PartialEq, Eq)]
pub struct HarmonyInstance {
    /// Stable short identifier.
    pub id: String,
    pub ip: String,
    pub port: u16,
    pub label: String,
    /// Path prefix of the instance's management API.
    pub path_prefix: String,
}

/// The credential kept after a successful login.
#[derive(Debug, Clone)]
pub struct CliAuth {
    pub token: String,
    /// When the token lapses, in seconds since the Unix epoch.
    pub expires_at: Option<i64>,
    pub user: Option<UserInfo>,
}

/// The SHA-256 digest of `data`.
pub uninterp spec fn sha256_of(data: Seq<u8>) -> Seq<u8>;

/// Relies on sha2::Sha256::digest: the 32-byte SHA-256 digest of the input.
#[verifier::external_body]
fn sha256(data: &[u8]) -> (r: Vec<u8>)
    ensures
        r@ == sha256_of(data@),
        r@.len() == 32,
{
    <sha2::Sha256 as sha2::Digest>::digest(data).to_vec()
}

/// `admin`
pub open spec fn admin_prefix() -> Seq<char> {
    seq!['a', 'd', 'm', 'i', 'n']
}

/// The management path prefix of an instance registered without one.
pub fn default_path_prefix() -> (r: String)
    ensures
        r@ == admin_prefix(),
{
    let p = "admin";
    proof {
        reveal_strlit("admin");
    }
    assert(p@ =~= admin_prefix());
    String::from_str(p)
}

/// The text an identifier is derived from: `ip:port:label`.
pub open spec fn id_source(ip: Seq<char>, port: u16, label: Seq<char>) -> Seq<char> {
    ip + seq![':'] + decimal(port as nat) + seq![':'] + label
}

/// Eight hexadecimal digits: the first four bytes of the SHA-256 digest of
/// the UTF-8 form of `ip:port:label`.
pub open spec fn derived_id(ip: Seq<char>, port: u16, label: Seq<char>) -> Seq<char> {
    let d = sha256_of(encode_utf8(id_source(ip, port, label)));
    hex_byte(d[0]) + hex_byte(d[1]) + hex_byte(d[2]) + hex_byte(d[3])
}

/// A short stable identifier for the instance at `ip:port` named `label`.
pub fn derive_id(ip: &str, port: u16, label: &str) -> (r: String)
    ensures
        r@ == derived_id(ip@, port, label@),
{
    let mut input = String::from_str(ip);
    push_char(&mut input, ':');
    let p = decimal_string(port as u64);
    input.append(p.as_str());
    push_char(&mut input, ':');
    input.append(label);
    assert(input@ == id_source(ip@, port, label@));
    let digest = sha256(input.as_str().as_bytes());
    let mut out = String::new();
    push_hex_byte(&mut out, digest[0]);
    push_hex_byte(&mut out, digest[1]);
    push_hex_byte(&mut out, digest[2]);
    push_hex_byte(&mut out, digest[3]);
    assert(out@ =~= derived_id(ip@, port, label@));
    out
}

/// The temporary file written before it is renamed over `path`.
pub fn tmp_path_for(path: &str) -> (r: String)
    ensures
        r@ == path@ + seq!['.', 't', 'm', 'p'],
{
    let mut s = String::from_str(path);
    let ext = ".tmp";
    proof {
        reveal_strlit(".tmp");
    }
    s.append(ext);
    assert(s@ =~= path@ + seq!['.', 't', 'm', 'p']);
    s
}

/// Where the instance registry lives inside the data directory `data_dir`.
pub fn harmony_file_path(data_dir: &str) -> (r: String)
    ensures
        r@ == joined(data_dir@, "harmony.json"@),
{
    join_path(data_dir, "harmony.json")
}

/// Where an older release kept the credential, inside `data_dir`.
pub fn auth_file_path(data_dir: &str) -> (r: String)
    ensures
        r@ == joined(data_dir@, "auth.json"@),
{
    join_path(data_dir, "auth.json")
}

/// The label of an instance registered without one: `ip:port`.
pub fn default_label(ip: &str, port: u16) -> (r: String)
    ensures
        r@ == ip@ + seq![':'] + decimal(port as nat),
{
    let mut s = String::from_str(ip);
    push_char(&mut s, ':');
    let p = decimal_string(port as u64);
    s.append(p.as_str());
    s
}

/// A copy of `s` with a fresh `String`.
fn copy_string(s: &String) -> (r: String)
    ensures
        r == *s,
{
    s.clone()
}

// ---------------------------------------------------------------------------
// The instance registry
// ---------------------------------------------------------------------------

/// `i` is the first instance of `list` labelled `label`.
pub open spec fn first_with_label(list: Seq<HarmonyInstance>, label: Seq<char>, i: int) -> bool {
    &&& 0 <= i < list.len()
    &&& list[i].label@ == label
    &&& forall|j: int| 0 <= j < i ==> (#[trigger] list[j]).label@ != label
}

/// `i` is the first instance of `list` at `ip:port`.
pub open spec fn first_with_addr(list: Seq<HarmonyInstance>, ip: Seq<char>, port: u16, i: int) -> bool {
    &&& 0 <= i < list.len()
    &&& list[i].ip@ == ip && list[i].port == port
    &&& forall|j: int| 0 <= j < i ==> !((#[trigger] list[j]).ip@ == ip && list[j].port == port)
}

pub open spec fn has_label(list: Seq<HarmonyInstance>, label: Seq<char>) -> bool {
    exists|i: int| 0 <= i < list.len() && (#[trigger] list[i]).label@ == label
}

pub open spec fn has_addr(list: Seq<HarmonyInstance>, ip: Seq<char>, port: u16) -> bool {
    exists|i: int| 0 <= i < list.len() && (#[trigger] list[i]).ip@ == ip && list[i].port == port
}

fn find_label(list: &Vec<HarmonyInstance>, label: &str) -> (r: Option<usize>)
    ensures
        match r {
            Some(i) => first_with_label(list@, label@, i as int),
            None => !has_label(list@, label@),
        },
{
    let mut i: usize = 0;
    while i < list.len()
        invariant
            i <= list@.len(),
            forall|j: int| 0 <= j < i ==> (#[trigger] list@[j]).label@ != label@,
        decreases list@.len() - i,
    {
        if same_text(list[i].label.as_str(), label) {
            return Some(i);
        }
        i = i + 1;
    }
    None
}

fn find_addr(list: &Vec<HarmonyInstance>, ip: &str, port: u16) -> (r: Option<usize>)
    ensures
        match r {
            Some(i) => first_with_addr(list@, ip@, port, i as int),
            None => !has_addr(list@, ip@, port),
        },
{
    let mut i: usize = 0;
    while i < list.len()
        invariant
            i <= list@.len(),
            forall|j: int| 0 <= j < i ==> !((#[trigger] list@[j]).ip@ == ip@ && list@[j].port == port),
        decreases list@.len() - i,
    {
        if same_text(list[i].ip.as_str(), ip) && list[i].port == port {
            return Some(i);
        }
        i = i + 1;
    }
    None
}

/// Adds `new_inst` to the registry `list`. An instance with the same label is
/// updated in place (address, label and prefix; its id stays); else an
/// instance at the same address gets the new label and prefix; else the new
/// instance is appended, with a derived id when it has none.
pub fn add_harmony_instance(list: &mut Vec<HarmonyInstance>, new_inst: HarmonyInstance)
    ensures
        has_label(old(list)@, new_inst.label@) ==> exists|i: int|
            {
                &&& first_with_label(old(list)@, new_inst.label@, i)
                &&& final(list)@ == old(list)@.update(
                    i,
                    HarmonyInstance {
                        id: old(list)@[i].id,
                        ip: new_inst.ip,
                        port: new_inst.port,
                        label: new_inst.label,
                        path_prefix: new_inst.path_prefix,
                    },
                )
            },
        !has_label(old(list)@, new_inst.label@) && has_addr(old(list)@, new_inst.ip@, new_inst.port) ==> exists|
            i: int,
        |
            {
                &&& first_with_addr(old(list)@, new_inst.ip@, new_inst.port, i)
                &&& final(list)@ == old(list)@.update(
                    i,
                    HarmonyInstance {
                        id: old(list)@[i].id,
                        ip: old(list)@[i].ip,
                        port: old(list)@[i].port,
                        label: new_inst.label,
                        path_prefix: new_inst.path_prefix,
                    },
                )
            },
        !has_label(old(list)@, new_inst.label@) && !has_addr(old(list)@, new_inst.ip@, new_inst.port) ==> {
            &&& final(list)@.len() == old(list)@.len() + 1
            &&& final(list)@.drop_last() == old(list)@
            &&& final(list)@.last().ip == new_inst.ip
            &&& final(list)@.last().port == new_inst.port
            &&& final(list)@.last().label == new_inst.label
            &&& final(list)@.last().path_prefix == new_inst.path_prefix
            &&& final(list)@.last().id@ == if new_inst.id@.len() == 0 {
                derived_id(new_inst.ip@, new_inst.port, new_inst.label@)
            } else {
                new_inst.id@
            }
        },
{
    match find_label(list, new_inst.label.as_str()) {
        Some(i) => {
            let id = copy_string(&list[i].id);
            let updated = HarmonyInstance {
                id,
                ip: new_inst.ip,
                port: new_inst.port,
                label: new_inst.label,
                path_prefix: new_inst.path_prefix,
            };
            list.set(i, updated);
            return;
        },
        None => {},
    }
    match find_addr(list, new_inst.ip.as_str(), new_inst.port) {
        Some(i) => {
            let id = copy_string(&list[i].id);
            let ip = copy_string(&list[i].ip);
            let updated = HarmonyInstance {
                id,
                ip,
                port: list[i].port,
                label: new_inst.label,
                path_prefix: new_inst.path_prefix,
            };
            list.set(i, updated);
        },
        None => {
            let mut to_add = new_inst;
            if to_add.id.unicode_len() == 0 {
                to_add.id = derive_id(to_add.ip.as_str(), to_add.port, to_add.label.as_str());
            }
            list.push(to_add);
            assert(list@.drop_last() =~= old(list)@);
        },
    }
}

/// How instances are picked for removal.
pub enum Selector {
    Label(String),
    Addr(String, u16),
    Id(String),
}

/// A `Selector` with its text replaced by character sequences.
pub enum Pick {
    Label(Seq<char>),
    Addr(Seq<char>, u16),
    Id(Seq<char>),
}

impl View for Selector {
    type V = Pick;

    open spec fn view(&self) -> Pick {
        match self {
            Selector::Label(l) => Pick::Label(l@),
            Selector::Addr(ip, port) => Pick::Addr(ip@, *port),
            Selector::Id(id) => Pick::Id(id@),
        }
    }
}

pub open spec fn picks(p: Pick, inst: HarmonyInstance) -> bool {
    match p {
        Pick::Label(l) => inst.label@ == l,
        Pick::Addr(ip, port) => inst.ip@ == ip && inst.port == port,
        Pick::Id(id) => inst.id@ == id,
    }
}

/// The instances of `s` that `p` does not pick, in their order.
pub open spec fn kept(s: Seq<HarmonyInstance>, p: Pick) -> Seq<HarmonyInstance>
    decreases s.len(),
{
    if s.len() == 0 {
        s
    } else if picks(p, s.last()) {
        kept(s.drop_last(), p)
    } else {
        kept(s.drop_last(), p).push(s.last())
    }
}

/// Whether `p` picks some instance of `s`.
pub open spec fn picks_any(s: Seq<HarmonyInstance>, p: Pick) -> bool {
    exists|i: int| 0 <= i < s.len() && picks(p, #[trigger] s[i])
}

fn picks_exec(sel: &Selector, inst: &HarmonyInstance) -> (r: bool)
    ensures
        r == picks(sel@, *inst),
{
    match sel {
        Selector::Label(l) => same_text(inst.label.as_str(), l.as_str()),
        Selector::Addr(ip, port) => same_text(inst.ip.as_str(), ip.as_str()) && inst.port == *port,
        Selector::Id(id) => same_text(inst.id.as_str(), id.as_str()),
    }
}

/// A copy of `inst`.
pub fn copy_instance(inst: &HarmonyInstance) -> (r: HarmonyInstance)
    ensures
        r == *inst,
{
    HarmonyInstance {
        id: copy_string(&inst.id),
        ip: copy_string(&inst.ip),
        port: inst.port,
        label: copy_string(&inst.label),
        path_prefix: copy_string(&inst.path_prefix),
    }
}

/// Removes the instances that `sel` picks; tells whether there was any.
pub fn remove_selected(list: &mut Vec<HarmonyInstance>, sel: &Selector) -> (r: bool)
    ensures
        final(list)@ == kept(old(list)@, sel@),
        r == picks_any(old(list)@, sel@),
{
    let mut rest: Vec<HarmonyInstance> = Vec::new();
    std::mem::swap(list, &mut rest);
    let ghost all = rest@;
    let mut removed = false;
    let mut i: usize = 0;
    assert(all.subrange(0, 0) =~= Seq::<HarmonyInstance>::empty());
    while i < rest.len()
        invariant
            rest@ == all,
            all == old(list)@,
            i <= all.len(),
            list@ == kept(all.subrange(0, i as int), sel@),
            removed == exists|j: int| 0 <= j < i && picks(sel@, #[trigger] all[j]),
        decreases all.len() - i,
    {
        assert(all.subrange(0, i + 1).drop_last() =~= all.subrange(0, i as int));
        if picks_exec(sel, &rest[i]) {
            removed = true;
        } else {
            let inst = copy_instance(&rest[i]);
            list.push(inst);
        }
        i = i + 1;
    }
    assert(all.subrange(0, all.len() as int) =~= all);
    removed
}

/// Removes the instances labelled `label`; tells whether there was any.
pub fn remove_harmony_instance_by_label(list: &mut Vec<HarmonyInstance>, label: &str) -> (r: bool)
    ensures
        final(list)@ == kept(old(list)@, Pick::Label(label@)),
        r == picks_any(old(list)@, Pick::Label(label@)),
{
    remove_selected(list, &Selector::Label(String::from_str(label)))
}

/// Removes the instances at `ip:port`; tells whether there was any.
pub fn remove_harmony_instance_by_addr(list: &mut Vec<HarmonyInstance>, ip: &str, port: u16) -> (r: bool)
    ensures
        final(list)@ == kept(old(list)@, Pick::Addr(ip@, port)),
        r == picks_any(old(list)@, Pick::Addr(ip@, port)),
{
    remove_selected(list, &Selector::Addr(String::from_str(ip), port))
}

/// Removes the instances with id `id`; tells whether there was any.
pub fn remove_harmony_instance_by_id(list: &mut Vec<HarmonyInstance>, id: &str) -> (r: bool)
    ensures
        final(list)@ == kept(old(list)@, Pick::Id(id@)),
        r == picks_any(old(list)@, Pick::Id(id@)),
{
    remove_selected(list, &Selector::Id(String::from_str(id)))
}

/// Gives every instance without an id its derived id; tells whether any
/// instance had none.
pub fn backfill_ids(list: &mut Vec<HarmonyInstance>) -> (r: bool)
    ensures
        final(list)@.len() == old(list)@.len(),
        forall|i: int| 0 <= i < old(list)@.len() ==> #[trigger] final(list)@[i] == if old(list)@[i].id@.len() == 0 {
            HarmonyInstance { id: final(list)@[i].id, ..old(list)@[i] }
        } else {
            old(list)@[i]
        },
        forall|i: int| 0 <= i < old(list)@.len() && old(list)@[i].id@.len() == 0 ==> (#[trigger] final(list)@[i]).id@
            == derived_id(old(list)@[i].ip@, old(list)@[i].port, old(list)@[i].label@),
        r == exists|i: int| 0 <= i < old(list)@.len() && (#[trigger] old(list)@[i]).id@.len() == 0,
{
    let ghost start = list@;
    let mut changed = false;
    let mut i: usize = 0;
    while i < list.len()
        invariant
            list@.len() == start.len(),
            start == old(list)@,
            i <= start.len(),
            forall|j: int| i <= j < start.len() ==> #[trigger] list@[j] == start[j],
            forall|j: int| 0 <= j < i ==> #[trigger] list@[j] == if start[j].id@.len() == 0 {
                HarmonyInstance { id: list@[j].id, ..start[j] }
            } else {
                start[j]
            },
            forall|j: int| 0 <= j < i && start[j].id@.len() == 0 ==> (#[trigger] list@[j]).id@ == derived_id(
                start[j].ip@,
                start[j].port,
                start[j].label@,
            ),
            changed == exists|j: int| 0 <= j < i && (#[trigger] start[j]).id@.len() == 0,
        decreases start.len() - i,
    {
        if list[i].id.unicode_len() == 0 {
            let mut inst = copy_instance(&list[i]);
            inst.id = derive_id(inst.ip.as_str(), inst.port, inst.label.as_str());
            list.set(i, inst);
            changed = true;
        }
        i = i + 1;
    }
    changed
}

} // verus!
