//! Which icon resource a macOS application bundle declares.  Reading the
//! bundle's `Info.plist`, converting the `.icns` file and encoding icons are
//! done by the caller.
use vstd::prelude::*;
use crate::paths::{extension_exec, extension_of, file_name, file_name_exec};
use crate::text::{chars_of, push_str, string_of, trim, trim_exec};
use crate::windows_paths::{eq_ignore_ascii_case, eq_ignore_ascii_case_exec};

verus! {

broadcast use vstd::string::group_string_axioms;

/// The text that valid UTF-8 bytes encode, `None` for invalid UTF-8.
pub uninterp spec fn utf8_decoded(bytes: Seq<u8>) -> Option<Seq<char>>;

/// `std::str::from_utf8`: the text of valid UTF-8 bytes, `None` when the
/// bytes are not valid UTF-8.
#[verifier::external_body]
fn utf8_text(bytes: &[u8]) -> (text: Option<String>)
    ensures
        match text {
            Some(t) => utf8_decoded(bytes@) == Some(t@),
            None => utf8_decoded(bytes@) is None,
        },
{
    match std::str::from_utf8(bytes) {
        Ok(text) => Some(text.to_string()),
        Err(_) => None,
    }
}

/// Whether a path names an application bundle: a directory whose extension
/// is `app`, without regard to ASCII case.
pub open spec fn is_app_bundle_spec(path: Seq<char>, is_dir: bool) -> bool {
    is_dir && (file_name(path) matches Some(name) && extension_of(name) matches Some(extension)
        && eq_ignore_ascii_case(extension, "app"@))
}

/// Whether `path` (a directory when `is_dir`) is an application bundle.
pub fn is_app_bundle(path: &str, is_dir: bool) -> (bundle: bool)
    ensures
        bundle == is_app_bundle_spec(path@, is_dir),
{
    if !is_dir {
        return false;
    }
    match file_name_exec(path) {
        None => false,
        Some(name) => match extension_exec(&chars_of(name.as_str())) {
            None => false,
            Some(extension) => eq_ignore_ascii_case_exec(&extension, &chars_of("app")),
        },
    }
}

/// The resource file that a bundle's `CFBundleIconFile` value names: the
/// value must be valid UTF-8 and, trimmed, a bare file name (not empty, `.`
/// or `..`, without separators); `.icns` is added when it has no extension.
pub open spec fn icon_resource_spec(value: Seq<u8>) -> Option<Seq<char>> {
    match utf8_decoded(value) {
        None => None,
        Some(text) => {
            let name = trim(text);
            if name.len() == 0 || name == "."@ || name == ".."@ || file_name(name) != Some(name) {
                None
            } else if extension_of(name) is Some {
                Some(name)
            } else {
                Some(name + ".icns"@)
            }
        },
    }
}

/// The icon resource named by `plutil -extract CFBundleIconFile raw`
/// output, or `None` when it names none safely.
pub fn bundle_icon_resource(value: &[u8]) -> (resource: Option<String>)
    ensures
        match icon_resource_spec(value@) {
            Some(r) => resource matches Some(s) && s@ == r,
            None => resource is None,
        },
{
    let text = match utf8_text(value) {
        Some(text) => text,
        None => {
            return None;
        },
    };
    let name = trim_exec(&chars_of(text.as_str()));
    let name_text = string_of(&name);
    if name.len() == 0 || name_text == ".".to_string() || name_text == "..".to_string() {
        return None;
    }
    let same = match file_name_exec(name_text.as_str()) {
        Some(file) => file == name_text,
        None => false,
    };
    if !same {
        return None;
    }
    if extension_exec(&name).is_some() {
        Some(name_text)
    } else {
        let mut out = name;
        push_str(&mut out, ".icns");
        Some(string_of(&out))
    }
}

} // verus!
