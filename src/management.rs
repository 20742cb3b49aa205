use vstd::prelude::*;

use crate::storage::HarmonyInstance;
use crate::text::{contains, decimal, decimal_string, has_infix, push_char, same_text, trim_end, trim_start,
    trim_both_char};

verus! {

/// Why no instance could be chosen.
#[derive(Debug, Clone, PartialEq, Eq)]
pub enum ResolveError {
    NoSuchId { id: String },
    NoSuchLabel { label: String },
    /// Neither an id nor a label was given.
    NoSelector,
}

/// `i` is the first instance of `list` whose id (`by_id`) or label is `key`.
pub open spec fn first_named(list: Seq<HarmonyInstance>, key: Seq<char>, by_id: bool, i: int) -> bool {
    &&& 0 <= i < list.len()
    &&& names(list[i], key, by_id)
    &&& forall|j: int| 0 <= j < i ==> !names(#[trigger] list[j], key, by_id)
}

pub open spec fn names(inst: HarmonyInstance, key: Seq<char>, by_id: bool) -> bool {
    if by_id {
        inst.id@ == key
    } else {
        inst.label@ == key
    }
}

fn find_named(list: &Vec<HarmonyInstance>, key: &str, by_id: bool) -> (r: Option<usize>)
    ensures
        match r {
            Some(i) => first_named(list@, key@, by_id, i as int),
            None => forall|j: int| 0 <= j < list@.len() ==> !names(#[trigger] list@[j], key@, by_id),
        },
{
    let mut i: usize = 0;
    while i < list.len()
        invariant
            i <= list@.len(),
            forall|j: int| 0 <= j < i ==> !names(#[trigger] list@[j], key@, by_id),
        decreases list@.len() - i,
    {
        let hit = if by_id {
            same_text(list[i].id.as_str(), key)
        } else {
            same_text(list[i].label.as_str(), key)
        };
        if hit {
            return Some(i);
        }
        i = i + 1;
    }
    None
}

/// The instance named by `id`, else by `label`: the first with that id or
/// label. An id, when given, decides alone.
pub fn resolve_instance(list: Vec<HarmonyInstance>, id: Option<&str>, label: Option<&str>) -> (r: Result<
    HarmonyInstance,
    ResolveError,
>)
    ensures
        match id {
            Some(k) => match r {
                Ok(inst) => exists|i: int| first_named(list@, k@, true, i) && inst == list@[i],
                Err(e) => (e matches ResolveError::NoSuchId { id: m } && m@ == k@) && forall|j: int|
                    0 <= j < list@.len() ==> !names(#[trigger] list@[j], k@, true),
            },
            None => match label {
                Some(k) => match r {
                    Ok(inst) => exists|i: int| first_named(list@, k@, false, i) && inst == list@[i],
                    Err(e) => (e matches ResolveError::NoSuchLabel { label: m } && m@ == k@) && forall|j: int|
                        0 <= j < list@.len() ==> !names(#[trigger] list@[j], k@, false),
                },
                None => r == Err::<HarmonyInstance, ResolveError>(ResolveError::NoSelector),
            },
        },
{
    let mut list = list;
    let (key, by_id) = match id {
        Some(k) => (k, true),
        None => match label {
            Some(k) => (k, false),
            None => return Err(ResolveError::NoSelector),
        },
    };
    match find_named(&list, key, by_id) {
        Some(i) => {
            let ghost before = list@;
            let inst = list.swap_remove(i);
            assert(inst == before[i as int]);
            Ok(inst)
        },
        None => if by_id {
            Err(ResolveError::NoSuchId { id: String::from_str(key) })
        } else {
            Err(ResolveError::NoSuchLabel { label: String::from_str(key) })
        },
    }
}

/// The base address of an instance's management API:
/// `http://ip:port/prefix`, the prefix without surrounding slashes.
pub fn base_url(inst: &HarmonyInstance) -> (r: String)
    ensures
        r@ == seq!['h', 't', 't', 'p', ':', '/', '/'] + inst.ip@ + seq![':'] + decimal(inst.port as nat) + seq!['/']
            + trim_end(trim_start(inst.path_prefix@, '/'), '/'),
{
    let scheme = "http://";
    proof {
        reveal_strlit("http://");
    }
    let mut s = String::from_str(scheme);
    s.append(inst.ip.as_str());
    push_char(&mut s, ':');
    let p = decimal_string(inst.port as u64);
    s.append(p.as_str());
    push_char(&mut s, '/');
    let prefix = trim_both_char(inst.path_prefix.as_str(), '/');
    s.append(prefix.as_str());
    assert(s@ =~= seq!['h', 't', 't', 'p', ':', '/', '/'] + inst.ip@ + seq![':'] + decimal(inst.port as nat)
        + seq!['/'] + trim_end(trim_start(inst.path_prefix@, '/'), '/'));
    s
}

/// The words a proxy uses when its cloud integration is switched off.
pub open spec fn disabled_phrase() -> Seq<char> {
    seq!['R', 'u', 'n', 'b', 'e', 'a', 'm', ' ', 'C', 'l', 'o', 'u', 'd', ' ', 'i', 'n', 't', 'e', 'g', 'r', 'a',
        't', 'i', 'o', 'n', ' ', 'i', 's', ' ', 'd', 'i', 's', 'a', 'b', 'l', 'e', 'd']
}

/// The setting that switches the integration on.
pub open spec fn enabled_setting() -> Seq<char> {
    seq!['r', 'u', 'n', 'b', 'e', 'a', 'm', '.', 'e', 'n', 'a', 'b', 'l', 'e', 'd']
}

/// Whether a proxy's refusal says that its cloud integration is disabled.
pub fn mentions_disabled_integration(text: &str) -> (r: bool)
    ensures
        r == (has_infix(text@, disabled_phrase()) || has_infix(text@, enabled_setting())),
{
    let phrase = "Runbeam Cloud integration is disabled";
    let setting = "runbeam.enabled";
    proof {
        reveal_strlit("Runbeam Cloud integration is disabled");
        reveal_strlit("runbeam.enabled");
    }
    assert(phrase@ =~= disabled_phrase());
    assert(setting@ =~= enabled_setting());
    contains(text, phrase) || contains(text, setting)
}

} // verus!
