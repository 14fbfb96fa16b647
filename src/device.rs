//! Output devices as the library reports them, and the choice of devices for
//! a playback request.

use vstd::prelude::*;
use crate::error::AudioError;

verus! {

/// What `str::to_lowercase` returns for a string: fixed by the characters
/// alone.
pub uninterp spec fn lower_of(s: Seq<char>) -> Seq<char>;

/// `s` with every space replaced by an underscore.
pub open spec fn spaces_to_underscores(s: Seq<char>) -> Seq<char> {
    Seq::new(s.len(), |i: int| if s[i] == ' ' { '_' } else { s[i] })
}

/// The identifier derived from a device name: `device_` followed by the
/// name with spaces turned into underscores, lowercased.
pub open spec fn device_id_spec(name: Seq<char>) -> Seq<char> {
    seq!['d', 'e', 'v', 'i', 'c', 'e', '_'] + lower_of(spaces_to_underscores(name))
}

/// Relies on `str::replace`: every match of the pattern is replaced, the
/// rest is kept in order.
#[verifier::external_body]
fn replace_spaces(s: &str) -> (r: String)
    ensures
        r@ == spaces_to_underscores(s@),
{
    s.replace(' ', "_")
}

/// Relies on `str::to_lowercase`: the result depends on the characters alone.
#[verifier::external_body]
fn lowercase(s: &str) -> (r: String)
    ensures
        r@ == lower_of(s@),
{
    s.to_lowercase()
}

/// The identifier of the device named `name`.
pub fn device_id(name: &String) -> (r: String)
    ensures
        r@ == device_id_spec(name@),
{
    let underscored = replace_spaces(name.as_str());
    let lowered = lowercase(underscored.as_str());
    let prefix = String::from_str("device_");
    proof {
        reveal_strlit("device_");
    }
    let r = prefix.concat(lowered.as_str());
    assert(r@ =~= device_id_spec(name@));
    r
}

/// One output device: derived identifier, display name, and whether it is
/// the system default.
#[derive(Debug, Clone)]
pub struct AudioOutputDevice {
    pub id: String,
    pub name: String,
    pub is_default: bool,
}

/// Whether the name at `i` is the reported default name.
pub open spec fn has_default_name(names: Seq<Option<String>>, default_name: Option<String>, i: int) -> bool {
    match default_name {
        Some(d) => names[i]->Some_0@ == d@,
        None => false,
    }
}

/// Whether device `i` is marked as the default: it carries the reported
/// default name and no earlier device does.
pub open spec fn is_default_at(names: Seq<Option<String>>, default_name: Option<String>, i: int) -> bool {
    &&& has_default_name(names, default_name, i)
    &&& forall|j: int| 0 <= j < i ==> !has_default_name(names, default_name, j)
}

/// The device record at position `i` of the enumeration.
pub open spec fn device_matches(
    d: AudioOutputDevice,
    names: Seq<Option<String>>,
    default_name: Option<String>,
    i: int,
) -> bool {
    &&& d.name@ == names[i]->Some_0@
    &&& d.id@ == device_id_spec(names[i]->Some_0@)
    &&& d.is_default == is_default_at(names, default_name, i)
}

/// Whether every name could be read.
pub open spec fn all_named(names: Seq<Option<String>>) -> bool {
    forall|i: int| 0 <= i < names.len() ==> (#[trigger] names[i]).is_some()
}

/// Builds the device list from the names in enumeration order. Fails with
/// `Enumeration` exactly when some name could not be read. Only the first
/// device that carries the default device's name is marked as the default.
pub fn build_device_list(names: &Vec<Option<String>>, default_name: &Option<String>) -> (r: Result<
    Vec<AudioOutputDevice>,
    AudioError,
>)
    ensures
        r is Err <==> !all_named(names@),
        r is Err ==> r == Err::<Vec<AudioOutputDevice>, AudioError>(AudioError::Enumeration),
        r matches Ok(v) ==> {
            &&& v@.len() == names@.len()
            &&& forall|i: int|
                0 <= i < v@.len() ==> device_matches(#[trigger] v@[i], names@, *default_name, i)
        },
{
    let mut v: Vec<AudioOutputDevice> = Vec::new();
    let mut taken = false;
    let mut i: usize = 0;
    while i < names.len()
        invariant
            i <= names@.len(),
            v@.len() == i,
            forall|j: int| 0 <= j < i ==> (#[trigger] names@[j]).is_some(),
            forall|j: int| 0 <= j < i ==> device_matches(#[trigger] v@[j], names@, *default_name, j),
            taken <==> exists|j: int| 0 <= j < i && has_default_name(names@, *default_name, j),
        decreases names@.len() - i,
    {
        match &names[i] {
            None => {
                return Err(AudioError::Enumeration);
            },
            Some(name) => {
                let id = device_id(name);
                let named_default = match default_name {
                    Some(d) => *d == *name,
                    None => false,
                };
                let is_default = named_default && !taken;
                assert(named_default == has_default_name(names@, *default_name, i as int));
                v.push(AudioOutputDevice { id, name: name.clone(), is_default });
                taken = taken || named_default;
            },
        }
        i = i + 1;
    }
    Ok(v)
}

proof fn lemma_first_default(names: Seq<Option<String>>, default_name: Option<String>, i: int)
    requires
        0 <= i < names.len(),
        has_default_name(names, default_name, i),
    ensures
        exists|k: int| 0 <= k <= i && is_default_at(names, default_name, k),
    decreases i,
{
    if exists|j: int| 0 <= j < i && has_default_name(names, default_name, j) {
        let j = choose|j: int| 0 <= j < i && has_default_name(names, default_name, j);
        lemma_first_default(names, default_name, j);
    } else {
        assert(is_default_at(names, default_name, i));
    }
}

/// At most one device is marked as the default; exactly one when the
/// backend reports a default whose name some device carries, and none when
/// it reports no default.
pub proof fn lemma_one_default(
    devices: Seq<AudioOutputDevice>,
    names: Seq<Option<String>>,
    default_name: Option<String>,
)
    requires
        devices.len() == names.len(),
        forall|i: int|
            0 <= i < devices.len() ==> device_matches(#[trigger] devices[i], names, default_name, i),
    ensures
        forall|i: int, j: int|
            0 <= i < devices.len() && 0 <= j < devices.len() && (#[trigger] devices[i]).is_default
                && (#[trigger] devices[j]).is_default ==> i == j,
        default_name is None ==> forall|i: int| 0 <= i < devices.len() ==> !(#[trigger] devices[i]).is_default,
        (default_name matches Some(d) && exists|i: int| 0 <= i < names.len() && (#[trigger] names[i])->Some_0@ == d@)
            ==> exists|i: int| 0 <= i < devices.len() && (#[trigger] devices[i]).is_default,
{
    assert forall|i: int, j: int|
        0 <= i < devices.len() && 0 <= j < devices.len() && (#[trigger] devices[i]).is_default
            && (#[trigger] devices[j]).is_default implies i == j by {
        assert(device_matches(devices[i], names, default_name, i));
        assert(device_matches(devices[j], names, default_name, j));
        if i < j {
            assert(!has_default_name(names, default_name, i));
        } else if j < i {
            assert(!has_default_name(names, default_name, j));
        }
    }
    assert forall|i: int| 0 <= i < devices.len() && default_name is None implies !(#[trigger] devices[i]).is_default by {
        assert(device_matches(devices[i], names, default_name, i));
    }
    if let Some(d) = default_name {
        if exists|i: int| 0 <= i < names.len() && (#[trigger] names[i])->Some_0@ == d@ {
            let i = choose|i: int| 0 <= i < names.len() && (#[trigger] names[i])->Some_0@ == d@;
            assert(has_default_name(names, default_name, i));
            lemma_first_default(names, default_name, i);
            let k = choose|k: int| 0 <= k <= i && is_default_at(names, default_name, k);
            assert(device_matches(devices[k], names, default_name, k));
            assert(devices[k].is_default);
        }
    }
}

/// Whether `id` is among the requested identifiers.
pub open spec fn id_requested(ids: Seq<String>, id: Seq<char>) -> bool {
    exists|j: int| 0 <= j < ids.len() && (#[trigger] ids[j])@ == id
}

/// Whether device `i` has a readable name whose identifier was requested.
pub open spec fn is_selected(names: Seq<Option<String>>, ids: Seq<String>, i: int) -> bool {
    &&& names[i] is Some
    &&& id_requested(ids, device_id_spec(names[i]->Some_0@))
}

/// The indices, in increasing order, of the selected devices among the
/// first `n`.
pub open spec fn selected_upto(names: Seq<Option<String>>, ids: Seq<String>, n: nat) -> Seq<usize>
    decreases n,
{
    if n == 0 {
        Seq::empty()
    } else {
        let p = selected_upto(names, ids, (n - 1) as nat);
        if is_selected(names, ids, n - 1) {
            p.push((n - 1) as usize)
        } else {
            p
        }
    }
}

/// The indices of all selected devices.
pub open spec fn selected_devices(names: Seq<Option<String>>, ids: Seq<String>) -> Seq<usize> {
    selected_upto(names, ids, names.len())
}

/// Chooses, among devices in enumeration order (`None` where a name could
/// not be read, such a device is skipped), those whose identifier is in
/// `device_ids`. Fails with `NoMatchingDevice` exactly when none is.
pub fn select_devices(names: &Vec<Option<String>>, device_ids: &Vec<String>) -> (r: Result<
    Vec<usize>,
    AudioError,
>)
    ensures
        r is Err <==> selected_devices(names@, device_ids@).len() == 0,
        r is Err ==> r == Err::<Vec<usize>, AudioError>(AudioError::NoMatchingDevice),
        r matches Ok(v) ==> v@ == selected_devices(names@, device_ids@),
{
    let mut v: Vec<usize> = Vec::new();
    let mut i: usize = 0;
    while i < names.len()
        invariant
            i <= names@.len(),
            v@ == selected_upto(names@, device_ids@, i as nat),
        decreases names@.len() - i,
    {
        if let Some(name) = &names[i] {
            let id = device_id(name);
            let mut found = false;
            let mut j: usize = 0;
            while j < device_ids.len()
                invariant
                    j <= device_ids@.len(),
                    id@ == device_id_spec(names@[i as int]->Some_0@),
                    found <==> exists|m: int| 0 <= m < j && (#[trigger] device_ids@[m])@ == id@,
                decreases device_ids@.len() - j,
            {
                if device_ids[j] == id {
                    found = true;
                }
                j = j + 1;
            }
            if found {
                v.push(i);
            }
        }
        i = i + 1;
    }
    if v.len() == 0 {
        Err(AudioError::NoMatchingDevice)
    } else {
        Ok(v)
    }
}

/// A request that names no identifier, or none that any device has,
/// selects no device (so playback fails with `NoMatchingDevice`).
pub proof fn lemma_no_request_no_device(names: Seq<Option<String>>, ids: Seq<String>)
    requires
        ids.len() == 0 || forall|i: int| 0 <= i < names.len() ==> !is_selected(names, ids, i),
    ensures
        selected_devices(names, ids).len() == 0,
{
    lemma_none_selected_upto(names, ids, names.len());
}

proof fn lemma_none_selected_upto(names: Seq<Option<String>>, ids: Seq<String>, n: nat)
    requires
        n <= names.len(),
        ids.len() == 0 || forall|i: int| 0 <= i < names.len() ==> !is_selected(names, ids, i),
    ensures
        selected_upto(names, ids, n).len() == 0,
    decreases n,
{
    if n > 0 {
        lemma_none_selected_upto(names, ids, (n - 1) as nat);
        assert(!is_selected(names, ids, n - 1));
    }
}

} // verus!
