//! Where the slot files live and how what was read from them is combined:
//! the hints of older configuration files, which kept them beside the rules,
//! fill in slots that the state file does not mention.
use std::collections::BTreeMap;
use vstd::prelude::*;

use crate::model::{AppConfig, AppState, SlotState};
use crate::text::{append_str, chars_of, string_of};

verus! {

// ---------------------------------------------------------------------------
// Paths
// ---------------------------------------------------------------------------

/// `PathBuf::from(base).join(name)` for a relative `name`: a `/` is put
/// between them unless `base` is empty or already ends with one.
pub open spec fn path_join(base: Seq<char>, name: Seq<char>) -> Seq<char> {
    if base.len() == 0 {
        name
    } else if base.last() == '/' {
        base + name
    } else {
        base + seq!['/'] + name
    }
}

/// Joins a relative `name` to `base`.
pub fn join_path(base: &str, name: &str) -> (r: String)
    ensures
        r@ == path_join(base@, name@),
{
    let b = chars_of(base);
    let mut out: Vec<char> = Vec::new();
    append_str(&mut out, base);
    if b.len() > 0 && b[b.len() - 1] != '/' {
        out.push('/');
    }
    append_str(&mut out, name);
    proof {
        if b@.len() > 0 && b@.last() != '/' {
            assert(out@ =~= base@ + seq!['/'] + name@);
        } else if b@.len() == 0 {
            assert(out@ =~= name@);
        }
    }
    string_of(out.as_slice())
}

/// The directory of the slot files: `$XDG_CONFIG_HOME/window-jump`, else
/// `$HOME/.config/window-jump`, else none.
pub open spec fn store_dir_of(xdg: Option<Seq<char>>, home: Option<Seq<char>>) -> Option<Seq<char>> {
    match xdg {
        Some(x) => Some(path_join(x, "window-jump"@)),
        None => match home {
            Some(h) => Some(path_join(path_join(h, ".config"@), "window-jump"@)),
            None => None,
        },
    }
}

/// The view of an optional string.
pub open spec fn opt_view(o: Option<String>) -> Option<Seq<char>> {
    match o {
        Some(s) => Some(s@),
        None => None,
    }
}

/// The directory of the slot files from the values of `XDG_CONFIG_HOME` and
/// `HOME`; `None` when neither is set.
pub fn store_dir(xdg_config_home: Option<String>, home: Option<String>) -> (r: Option<String>)
    ensures
        opt_view(r) == store_dir_of(opt_view(xdg_config_home), opt_view(home)),
{
    match xdg_config_home {
        Some(x) => Some(join_path(x.as_str(), "window-jump")),
        None => match home {
            Some(h) => {
                let c = join_path(h.as_str(), ".config");
                Some(join_path(c.as_str(), "window-jump"))
            },
            None => None,
        },
    }
}

/// The path of `config.json` in the store directory.
pub fn config_path(dir: &str) -> (r: String)
    ensures
        r@ == path_join(dir@, "config.json"@),
{
    join_path(dir, "config.json")
}

/// The path of `state.json` in the store directory.
pub fn state_path(dir: &str) -> (r: String)
    ensures
        r@ == path_join(dir@, "state.json"@),
{
    join_path(dir, "state.json")
}

/// The path of the lock file in the store directory.
pub fn lock_path(dir: &str) -> (r: String)
    ensures
        r@ == path_join(dir@, ".window-jump.lock"@),
{
    join_path(dir, ".window-jump.lock")
}

// ---------------------------------------------------------------------------
// Combining what was read
// ---------------------------------------------------------------------------

/// A version number of 0 (an old file) is read as 1.
pub open spec fn fixed_version(v: u32) -> u32 {
    if v == 0 {
        1
    } else {
        v
    }
}

/// The hints of an old configuration file, one entry per slot: the slots
/// whose hints are all absent are left out.
pub open spec fn legacy_hints(entries: Map<u8, SlotState>) -> Map<u8, SlotState> {
    Map::new(|k: u8| entries.contains_key(k) && !entries[k].empty(), |k: u8| entries[k])
}

/// The state that the hints of an old configuration file describe.
pub fn legacy_state_from_entries(entries: &BTreeMap<u8, SlotState>) -> (r: AppState)
    ensures
        r.version == 1,
        r.slots@ == legacy_hints(entries@),
{
    let mut state = AppState::default();
    let mut k: u16 = 0;
    while k < 256
        invariant
            k <= 256,
            state.version == 1,
            forall|key: u8|
                #![trigger state.slots@.contains_key(key)]
                state.slots@.contains_key(key) <==> (key < k && entries@.contains_key(key)
                    && !entries@[key].empty()),
            forall|key: u8| #[trigger]
                state.slots@.contains_key(key) ==> state.slots@[key] == entries@[key],
        decreases 256 - k,
    {
        let key = k as u8;
        match entries.get(&key) {
            Some(e) => {
                state.set_slot_state(key, e.clone());
            },
            None => {},
        }
        k = k + 1;
    }
    proof {
        assert(state.slots@ =~= legacy_hints(entries@));
    }
    state
}

/// What loading the store gives: the configuration (defaults when the file
/// is absent, version 0 read as 1) and the state, whose slots are those of
/// the state file with the old configuration's hints for the slots it lacks.
pub open spec fn loaded_slots(legacy: Map<u8, SlotState>, state: Map<u8, SlotState>) -> Map<
    u8,
    SlotState,
> {
    legacy.union_prefer_right(state)
}

/// Combines what was read from the slot files. `config_file` is `None` when
/// `config.json` is absent, else the rules and the hints that an old file
/// kept beside them; `state_file` is `None` when `state.json` is absent.
pub fn load_store(config_file: Option<(AppConfig, AppState)>, state_file: Option<AppState>) -> (r: (
    AppConfig,
    AppState,
))
    ensures
        match config_file {
            Some(cf) => r.0.version == fixed_version(cf.0.version) && r.0.slots@ == cf.0.slots@,
            None => r.0.version == 1 && r.0.slots@.is_empty(),
        },
        match state_file {
            Some(sf) => r.1.version == fixed_version(sf.version),
            None => r.1.version == 1,
        },
        r.1.slots@ == loaded_slots(
            match config_file {
                Some(cf) => cf.1.slots@,
                None => Map::empty(),
            },
            match state_file {
                Some(sf) => sf.slots@,
                None => Map::empty(),
            },
        ),
{
    let (mut config, legacy) = match config_file {
        Some(cf) => cf,
        None => (AppConfig::default(), AppState::default()),
    };
    if config.version == 0 {
        config.version = 1;
    }
    let mut state = match state_file {
        Some(sf) => sf,
        None => AppState::default(),
    };
    if state.version == 0 {
        state.version = 1;
    }
    merge_legacy_state(&mut state, &legacy);
    (config, state)
}

/// Adds the hints of `legacy` for the slots that `state` has none for.
pub fn merge_legacy_state(state: &mut AppState, legacy: &AppState)
    ensures
        final(state).version == old(state).version,
        final(state).slots@ == loaded_slots(legacy.slots@, old(state).slots@),
{
    let ghost orig = state.slots@;
    let mut k: u16 = 0;
    while k < 256
        invariant
            k <= 256,
            state.version == old(state).version,
            orig == old(state).slots@,
            forall|key: u8|
                #![trigger state.slots@.contains_key(key)]
                state.slots@.contains_key(key) <==> (orig.contains_key(key) || (key < k
                    && legacy.slots@.contains_key(key))),
            forall|key: u8| #[trigger]
                state.slots@.contains_key(key) ==> state.slots@[key] == if orig.contains_key(key) {
                    orig[key]
                } else {
                    legacy.slots@[key]
                },
        decreases 256 - k,
    {
        let key = k as u8;
        if !state.slots.contains_key(&key) {
            match legacy.slots.get(&key) {
                Some(e) => {
                    state.slots.insert(key, e.clone());
                },
                None => {},
            }
        }
        k = k + 1;
    }
    proof {
        assert(state.slots@ =~= loaded_slots(legacy.slots@, orig));
    }
}

// ---------------------------------------------------------------------------
// Writing
// ---------------------------------------------------------------------------

/// `.{file_name}.{pid}.tmp`, the name a file is written under before it
/// replaces the real one.
pub open spec fn temp_name_of(file_name: Seq<char>, pid: u32) -> Seq<char> {
    "."@ + file_name + "."@ + crate::numfmt::decimal_of(pid as int) + ".tmp"@
}

/// The temporary name of `file_name` for the process `pid`.
pub fn temp_file_name(file_name: &str, pid: u32) -> (r: String)
    ensures
        r@ == temp_name_of(file_name@, pid),
{
    let mut out: Vec<char> = Vec::new();
    append_str(&mut out, ".");
    append_str(&mut out, file_name);
    append_str(&mut out, ".");
    crate::numfmt::push_digits(&mut out, pid as u64, 10);
    append_str(&mut out, ".tmp");
    string_of(out.as_slice())
}

/// How old, in nanoseconds, a lock file may get before it is taken to be
/// left over by a process that is gone (30 seconds).
pub const STALE_LOCK_NANOS: u128 = 30_000_000_000;

/// Whether a lock file of the given age (when it could be read) is stale
/// and may be removed: only a lock older than 30 seconds is.
pub fn lock_is_stale(age_nanos: Option<u128>) -> (b: bool)
    ensures
        b == (age_nanos matches Some(a) && a > STALE_LOCK_NANOS),
{
    match age_nanos {
        Some(a) => a > STALE_LOCK_NANOS,
        None => false,
    }
}

} // verus!
