//! What Windows reports through WMI, and the choice of the shell's name
//! from what the registry and the environment hold.

use vstd::prelude::*;
use crate::text::{
    chars_of, contains, lex_less, lex_lt, lowercase, split, split_chars, str_contains, string_of,
    to_lowercase, views, lemma_lex_lt_irreflexive, lemma_lex_lt_transitive,
};

verus! {

/// The processor, as the WMI class `Win32_Processor` describes it.
#[allow(non_camel_case_types)]
pub struct Win32_Processor {
    pub name: String,
    pub current_clock_speed: u32,
    pub current_voltage: u16,
    pub max_clock_speed: u32,
    pub number_of_cores: u32,
    pub number_of_enabled_core: u32,
    pub number_of_logical_processors: u32,
    pub load_percentage: u16,
}

/// The video controller, as the WMI class `Win32_VideoController` describes it.
#[allow(non_camel_case_types)]
pub struct Win32_VideoController {
    pub name: String,
    pub current_horizontal_resolution: u16,
    pub current_vertical_resolution: u16,
    pub current_refresh_rate: u8,
    pub adapter_ram: u32,
}


/// The registry key of the engine of Windows PowerShell 3 and later.
pub const ENGINE_KEY_V3: &'static str = "SOFTWARE\\Microsoft\\PowerShell\\3\\PowerShellEngine";

/// The registry key of the engine of Windows PowerShell 1 and 2.
pub const ENGINE_KEY_V1: &'static str = "SOFTWARE\\Microsoft\\PowerShell\\1\\PowerShellEngine";

/// The registry value that holds the engine's version.
pub const ENGINE_VERSION_VALUE: &'static str = "RunTimeVersion";

/// The version of the legacy (Windows) PowerShell engine.
///
/// Both engine keys are opened, the one of version 3 first; when the key of
/// version 1 cannot be opened its error is the result. Otherwise the
/// version is read from the key of version 3 if it opened, else from the
/// key of version 1. `open_subkey` opens a key below `HKEY_LOCAL_MACHINE`
/// and `get_value` reads a named value of an opened key.
pub fn fetch_legacy_ps_version<K, E, O, G>(open_subkey: O, get_value: G) -> (r: Result<String, E>) where
    O: Fn(&str) -> Result<K, E>,
    G: FnOnce(K, &str) -> Result<String, E>,

    requires
        call_requires(open_subkey, (ENGINE_KEY_V3,)),
        call_requires(open_subkey, (ENGINE_KEY_V1,)),
        forall|k: K| call_requires(get_value, (k, ENGINE_VERSION_VALUE)),
    ensures
        exists|v3: Result<K, E>, v1: Result<K, E>|
            {
                &&& call_ensures(open_subkey, (ENGINE_KEY_V3,), v3)
                &&& call_ensures(open_subkey, (ENGINE_KEY_V1,), v1)
                &&& match v1 {
                    Err(e) => r == Err::<String, E>(e),
                    Ok(k1) => call_ensures(
                        get_value,
                        (
                            match v3 {
                                Ok(k3) => k3,
                                Err(_) => k1,
                            },
                            ENGINE_VERSION_VALUE,
                        ),
                        r,
                    ),
                }
            },
{
    let v3 = open_subkey(ENGINE_KEY_V3);
    let v1 = open_subkey(ENGINE_KEY_V1);
    match v1 {
        Err(e) => Err(e),
        Ok(k1) => {
            let key = match v3 {
                Ok(k3) => k3,
                Err(_) => k1,
            };
            get_value(key, ENGINE_VERSION_VALUE)
        },
    }
}


/// The views of a sequence of strings.
pub open spec fn string_views(vs: Seq<String>) -> Seq<Seq<char>> {
    vs.map_values(|v: String| v@)
}

/// The greatest of `vs` in the order of `<` on strings, the empty string
/// when there is none: each version replaces the one kept so far when it is
/// greater.
pub open spec fn latest_of(vs: Seq<Seq<char>>) -> Seq<char>
    decreases vs.len(),
{
    if vs.len() == 0 {
        Seq::empty()
    } else {
        let kept = latest_of(vs.drop_last());
        if lex_lt(kept, vs.last()) {
            vs.last()
        } else {
            kept
        }
    }
}

/// The greatest of the semantic versions that the registry lists under
/// `PowerShellCore\InstalledVersions`, the empty string when there is none.
pub fn latest_semantic_version(versions: &[String]) -> (r: String)
    ensures
        r@ == latest_of(string_views(versions@)),
{
    let mut latest: Vec<char> = Vec::new();
    let mut i: usize = 0;
    proof {
        assert(string_views(versions@).take(0) =~= Seq::<Seq<char>>::empty());
    }
    while i < versions.len()
        invariant
            i <= versions@.len(),
            latest@ == latest_of(string_views(versions@).take(i as int)),
        decreases versions@.len() - i,
    {
        let candidate = chars_of(versions[i].as_str());
        proof {
            let t = string_views(versions@).take(i + 1);
            assert(t.drop_last() =~= string_views(versions@).take(i as int));
            assert(t.last() == candidate@);
        }
        if lex_less(&latest, &candidate) {
            latest = candidate;
        }
        i = i + 1;
    }
    proof {
        assert(string_views(versions@).take(versions@.len() as int) =~= string_views(versions@));
    }
    string_of(&latest)
}

/// The version named by the first of `paths`, from the `i`-th on, that
/// mentions `powershell_` and has a second `_`-separated field: that field.
pub open spec fn version_in_paths(paths: Seq<Seq<char>>, i: int) -> Option<Seq<char>>
    decreases paths.len() - i,
{
    if i < 0 || i >= paths.len() {
        None
    } else if contains(paths[i], "powershell_"@) && split(paths[i], '_').len() > 1 {
        Some(split(paths[i], '_')[1])
    } else {
        version_in_paths(paths, i + 1)
    }
}

/// The PowerShell version named in a lowercased `PSModulePath`, whose paths
/// are separated by `;`.
pub open spec fn module_path_version(lowercased: Seq<char>) -> Option<Seq<char>> {
    version_in_paths(split(lowercased, ';'), 0)
}

/// The PowerShell version named in a lowercased `PSModulePath`.
pub fn ps_version_in_lowercased_path(lowercased: &str) -> (r: Option<String>)
    ensures
        match r {
            Some(v) => module_path_version(lowercased@) == Some(v@),
            None => module_path_version(lowercased@) is None,
        },
{
    let v = chars_of(lowercased);
    let paths = split_chars(&v, ';');
    let ghost pv = views(paths@);
    let n = paths.len();
    let mut i: usize = 0;
    while i < n
        invariant
            i <= n,
            n == paths@.len(),
            pv == views(paths@),
            pv == split(lowercased@, ';'),
            v@ == lowercased@,
            version_in_paths(pv, 0) == version_in_paths(pv, i as int),
        decreases n - i,
    {
        let path = &paths[i];
        proof {
            assert(path@ == pv[i as int]);
        }
        if str_contains(path, "powershell_") {
            let fields = split_chars(path, '_');
            if fields.len() > 1 {
                let version = string_of(&fields[1]);
                proof {
                    assert(views(fields@)[1] == fields@[1]@);
                    assert(version_in_paths(pv, i as int) == Some(version@));
                }
                return Some(version);
            }
        }
        i = i + 1;
    }
    None
}

/// The PowerShell version named in the value of `PSModulePath`, read in
/// lowercase.
pub fn ps_version_from_module_path(var: &str) -> (r: Option<String>)
    ensures
        match r {
            Some(v) => module_path_version(lowercase(var@)) == Some(v@),
            None => module_path_version(lowercase(var@)) is None,
        },
{
    let lowered = to_lowercase(var);
    ps_version_in_lowercased_path(lowered.as_str())
}

/// The shell's name for a PowerShell version.
pub open spec fn powershell_label(version: Seq<char>) -> Seq<char> {
    "PowerShell "@ + version
}

/// The shell's name when no PowerShell version is found.
pub open spec fn console_host() -> Seq<char> {
    "Console Host"@
}

/// The shell's name from the installed PowerShell versions and the
/// lowercased `PSModulePath`, absent when neither names a version.
pub open spec fn shell_before_legacy(installed: Seq<Seq<char>>, lowered_path: Option<Seq<char>>) -> Option<Seq<char>> {
    let latest = latest_of(installed);
    if latest.len() > 0 {
        Some(powershell_label(latest))
    } else {
        match lowered_path {
            Some(p) => match module_path_version(p) {
                Some(v) => Some(powershell_label(v)),
                None => None,
            },
            None => None,
        }
    }
}

/// The shell's name from the legacy engine's version, or from the failure
/// to read it.
pub open spec fn legacy_label<E>(r: Result<String, E>) -> Seq<char> {
    match r {
        Ok(v) => powershell_label(v@),
        Err(_) => console_host(),
    }
}

/// The name of the newest PowerShell: the greatest installed PowerShell
/// (Core) version; else the version named in `PSModulePath` (absent when
/// the variable is unset or not Unicode); else the legacy engine's version,
/// which `legacy` reads only then; else `Console Host`.
pub fn fetch_latest_ps_version<E, F>(installed: &[String], ps_module_path: Option<&str>, legacy: F) -> (r: String) where
    F: FnOnce() -> Result<String, E>,

    requires
        call_requires(legacy, ()),
    ensures
        match shell_before_legacy(
            string_views(installed@),
            match ps_module_path {
                Some(p) => Some(lowercase(p@)),
                None => None,
            },
        ) {
            Some(label) => r@ == label,
            None => exists|lr: Result<String, E>| call_ensures(legacy, (), lr) && r@ == legacy_label(lr),
        },
        latest_of(string_views(installed@)).len() > 0 ==> r@ == "PowerShell "@ + latest_of(
            string_views(installed@),
        ),
        latest_of(string_views(installed@)).len() == 0 ==> match ps_module_path {
            Some(p) => match module_path_version(lowercase(p@)) {
                Some(v) => r@ == "PowerShell "@ + v,
                None => exists|lr: Result<String, E>|
                    {
                        &&& call_ensures(legacy, (), lr)
                        &&& match lr {
                            Ok(v) => r@ == "PowerShell "@ + v@,
                            Err(_) => r@ == "Console Host"@,
                        }
                    },
            },
            None => exists|lr: Result<String, E>|
                {
                    &&& call_ensures(legacy, (), lr)
                    &&& match lr {
                        Ok(v) => r@ == "PowerShell "@ + v@,
                        Err(_) => r@ == "Console Host"@,
                    }
                },
        },
{
    let latest = latest_semantic_version(installed);
    if !latest.as_str().is_empty() {
        let mut s = String::new();
        s.append("PowerShell ");
        s.append(latest.as_str());
        return s;
    }
    if let Some(path) = ps_module_path {
        if let Some(version) = ps_version_from_module_path(path) {
            let mut s = String::new();
            s.append("PowerShell ");
            s.append(version.as_str());
            return s;
        }
    }
    let outcome = legacy();
    let ghost read = outcome;
    let r = match outcome {
        Ok(version) => {
            let mut s = String::new();
            s.append("PowerShell ");
            s.append(version.as_str());
            s
        },
        Err(_) => String::from_str("Console Host"),
    };
    proof {
        assert(call_ensures(legacy, (), read) && r@ == legacy_label(read));
    }
    r
}


/// The version kept is one that no installed version exceeds, and it is
/// one of them, or empty when there is none.
pub proof fn law_latest_is_greatest(vs: Seq<Seq<char>>)
    ensures
        forall|i: int| 0 <= i < vs.len() ==> !lex_lt(latest_of(vs), #[trigger] vs[i]),
        latest_of(vs).len() == 0 || vs.contains(latest_of(vs)),
    decreases vs.len(),
{
    if vs.len() > 0 {
        let prev = vs.drop_last();
        law_latest_is_greatest(prev);
        let kept = latest_of(prev);
        let last = vs.last();
        lemma_lex_lt_irreflexive(last);
        if lex_lt(kept, last) {
            assert forall|i: int| 0 <= i < vs.len() implies !lex_lt(last, #[trigger] vs[i]) by {
                if i < vs.len() - 1 {
                    assert(vs[i] == prev[i]);
                    if lex_lt(last, vs[i]) {
                        lemma_lex_lt_transitive(kept, last, vs[i]);
                    }
                }
            }
            assert(vs[vs.len() - 1] == last);
        } else {
            assert forall|i: int| 0 <= i < vs.len() implies !lex_lt(kept, #[trigger] vs[i]) by {
                if i < vs.len() - 1 {
                    assert(vs[i] == prev[i]);
                }
            }
            if kept.len() > 0 {
                let k = choose|k: int| 0 <= k < prev.len() && prev[k] == kept;
                assert(vs[k] == kept);
            }
        }
    }
}


/// The order in which the shell's name is chosen: a non-empty installed
/// version wins; without one, a version named in `PSModulePath`; without
/// either, nothing is chosen yet and the legacy engine decides.
pub proof fn law_shell_choice_order(installed: Seq<Seq<char>>, lowered_path: Option<Seq<char>>)
    ensures
        latest_of(installed).len() > 0 ==> shell_before_legacy(installed, lowered_path) == Some(
            "PowerShell "@ + latest_of(installed),
        ),
        forall|p: Seq<char>, v: Seq<char>|
            latest_of(installed).len() == 0 && lowered_path == Some(p) && module_path_version(p)
                == Some(v) ==> shell_before_legacy(installed, lowered_path) == Some(
                "PowerShell "@ + v,
            ),
        latest_of(installed).len() == 0 && (lowered_path is None || module_path_version(
            lowered_path->0,
        ) is None) ==> shell_before_legacy(installed, lowered_path) is None,
{
}

/// The legacy engine's label is `PowerShell ` and its version when it is
/// read, and `Console Host` only when reading it fails.
pub proof fn law_legacy_label<E>(r: Result<String, E>)
    ensures
        r matches Ok(v) ==> legacy_label(r) == "PowerShell "@ + v@,
        r is Err ==> legacy_label(r) == "Console Host"@,
{
}

} // verus!
