//! The inbound firewall rules for the proxy cores and the application: only
//! absolute, NUL-free paths to the expected executables are accepted.
use vstd::prelude::*;
use crate::error::{NativeError, fails_with};
use crate::text::{chars_of, push_str, string_of};
use crate::windows_paths::{
    eq_ignore_ascii_case, eq_ignore_ascii_case_exec, win_file_name, win_file_name_exec,
    win_is_absolute, win_is_absolute_exec,
};

verus! {

broadcast use vstd::string::group_string_axioms;

/// One firewall rule: its name and the program it admits.
#[derive(Debug, Clone, PartialEq, Eq)]
pub struct FirewallRule {
    pub name: String,
    pub application_path: String,
}

/// The decision on one executable path: `Ok` or the message of the rule it
/// breaks.
pub open spec fn executable_path_check(path: Seq<char>, expected: Seq<Seq<char>>) -> Result<
    (),
    Seq<char>,
> {
    if path.contains('\0') || !win_is_absolute(path) {
        Err("Firewall executable path must be absolute and NUL-free"@)
    } else {
        match win_file_name(path) {
            None => Err("Firewall executable path has no filename"@),
            Some(name) => if exists|i: int|
                0 <= i < expected.len() && eq_ignore_ascii_case(name, #[trigger] expected[i]) {
                Ok(())
            } else {
                Err("Unexpected firewall executable: "@ + name)
            },
        }
    }
}

/// The names as sequences.
pub open spec fn str_views(v: Seq<&str>) -> Seq<Seq<char>> {
    v.map_values(|s: &str| s@)
}

/// Accepts an absolute, NUL-free path whose file name is one of `expected`,
/// ignoring ASCII case.
pub fn validate_executable_path(path: &str, expected: &Vec<&str>) -> (result: Result<(), NativeError>)
    ensures
        match executable_path_check(path@, str_views(expected@)) {
            Ok(()) => result is Ok,
            Err(message) => fails_with(result, message),
        },
{
    let chars = chars_of(path);
    assert(chars@ == path@);
    if crate::text::contains_char(&chars, '\0') || !win_is_absolute_exec(path) {
        return Err(NativeError::new("Firewall executable path must be absolute and NUL-free"));
    }
    let name = match win_file_name_exec(path) {
        None => {
            return Err(NativeError::new("Firewall executable path has no filename"));
        },
        Some(name) => name,
    };
    let ghost views = str_views(expected@);
    let mut i: usize = 0;
    while i < expected.len()
        invariant
            i <= expected.len(),
            views == str_views(expected@),
            !path@.contains('\0'),
            win_is_absolute(path@),
            win_file_name(path@) == Some(name@),
            forall|j: int| 0 <= j < i ==> !eq_ignore_ascii_case(name@, #[trigger] views[j]),
        decreases expected.len() - i,
    {
        if eq_ignore_ascii_case_exec(&name, &chars_of(expected[i])) {
            assert(eq_ignore_ascii_case(name@, views[i as int]));
            return Ok(());
        }
        i = i + 1;
    }
    let mut out: Vec<char> = Vec::new();
    push_str(&mut out, "Unexpected firewall executable: ");
    crate::text::append_chars(&mut out, &name);
    Err(NativeError { message: string_of(&out) })
}

/// The rules for the two cores and the application, in the order they are
/// installed.
pub open spec fn core_rules(mihomo: Seq<char>, alpha: Seq<char>, application: Seq<char>) -> Seq<
    (Seq<char>, Seq<char>),
> {
    seq![("mihomo"@, mihomo), ("mihomo-alpha"@, alpha), ("KokoroBox"@, application)]
}

/// The rules as plain pairs.
pub open spec fn rule_views(rules: Seq<FirewallRule>) -> Seq<(Seq<char>, Seq<char>)> {
    rules.map_values(|r: FirewallRule| (r.name@, r.application_path@))
}

/// The first failing check of the three executables, or the rules to
/// install: any earlier rule of the same names is removed first.
pub open spec fn core_firewall_spec(mihomo: Seq<char>, alpha: Seq<char>, application: Seq<char>) -> Result<
    Seq<(Seq<char>, Seq<char>)>,
    Seq<char>,
> {
    match executable_path_check(mihomo, seq!["mihomo.exe"@]) {
        Err(m) => Err(m),
        Ok(()) => match executable_path_check(alpha, seq!["mihomo-alpha.exe"@]) {
            Err(m) => Err(m),
            Ok(()) => match executable_path_check(
                application,
                seq!["KokoroBox.exe"@, "electron.exe"@],
            ) {
                Err(m) => Err(m),
                Ok(()) => Ok(core_rules(mihomo, alpha, application)),
            },
        },
    }
}

/// Validates the three executables and gives the rules that admit them.
pub fn ensure_kokoro_box_core_firewall(
    mihomo_path: &str,
    mihomo_alpha_path: &str,
    application_path: &str,
) -> (result: Result<Vec<FirewallRule>, NativeError>)
    ensures
        match core_firewall_spec(mihomo_path@, mihomo_alpha_path@, application_path@) {
            Ok(rules) => result matches Ok(r) && rule_views(r@) == rules,
            Err(message) => fails_with(result, message),
        },
{
    let first: Vec<&str> = vec!["mihomo.exe"];
    assert(str_views(first@) =~= seq!["mihomo.exe"@]);
    match validate_executable_path(mihomo_path, &first) {
        Err(e) => {
            return Err(e);
        },
        Ok(()) => {},
    }
    let second: Vec<&str> = vec!["mihomo-alpha.exe"];
    assert(str_views(second@) =~= seq!["mihomo-alpha.exe"@]);
    match validate_executable_path(mihomo_alpha_path, &second) {
        Err(e) => {
            return Err(e);
        },
        Ok(()) => {},
    }
    let third: Vec<&str> = vec!["KokoroBox.exe", "electron.exe"];
    assert(str_views(third@) =~= seq!["KokoroBox.exe"@, "electron.exe"@]);
    match validate_executable_path(application_path, &third) {
        Err(e) => {
            return Err(e);
        },
        Ok(()) => {},
    }
    let rules: Vec<FirewallRule> = vec![
        FirewallRule { name: "mihomo".to_string(), application_path: mihomo_path.to_string() },
        FirewallRule {
            name: "mihomo-alpha".to_string(),
            application_path: mihomo_alpha_path.to_string(),
        },
        FirewallRule {
            name: "KokoroBox".to_string(),
            application_path: application_path.to_string(),
        },
    ];
    assert(rule_views(rules@) =~= core_rules(mihomo_path@, mihomo_alpha_path@, application_path@));
    Ok(rules)
}

} // verus!
