//! What is done once a version is unpacked.
use crate::app_module::modify::{scoped_path, spec_scoped};
use vstd::prelude::*;
use vstd::string::*;

verus! {

/// What `text_template::Template::fill_in` makes of a template when `name`
/// has the value `value` and no other placeholder has one.
pub uninterp spec fn template_fill(template: Seq<char>, name: Seq<char>, value: Seq<char>) -> Seq<
    char,
>;

/// Whether `char::is_whitespace` holds of a character.
pub uninterp spec fn char_is_whitespace(c: char) -> bool;

/// Calls `char::is_whitespace`. Trusted: the answer is the one that
/// `char_is_whitespace` names.
#[verifier::external_body]
fn is_whitespace(c: char) -> (r: bool)
    ensures
        r == char_is_whitespace(c),
{
    c.is_whitespace()
}

/// Every white space of the text is an ASCII character.
pub open spec fn spec_plain_spaces(text: Seq<char>) -> bool {
    forall|i: int|
        0 <= i < text.len() && char_is_whitespace(#[trigger] text[i]) ==> (text[i] as u32) < 128
}

/// Whether every white space of the text is an ASCII character.
pub fn plain_spaces(text: &str) -> (r: bool)
    ensures
        r == spec_plain_spaces(text@),
{
    let n: usize = text.unicode_len();
    let mut i: usize = 0;
    while i < n
        invariant
            n == text@.len(),
            i <= n,
            forall|j: int|
                0 <= j < i && char_is_whitespace(#[trigger] text@[j]) ==> (text@[j] as u32) < 128,
        decreases n - i,
    {
        let c: char = text.get_char(i);
        if is_whitespace(c) && (c as u32) >= 128 {
            return false;
        }
        i += 1;
    }
    true
}

/// Reads the template with `text_template::Template::from` and fills it in
/// with `Template::fill_in`, `name` having the value `value`. Trusted: the
/// text is the one that `template_fill` names. The white space of the
/// template has to be ASCII: the crate counts the white space around a
/// placeholder's name in characters and cuts there in bytes, which falls off
/// a character boundary, and fails, for white space that takes more than one
/// byte.
#[verifier::external_body]
fn fill_template(template: &str, name: &str, value: &str) -> (r: String)
    requires
        spec_plain_spaces(template@),
    ensures
        r@ == template_fill(template@, name@, value@),
{
    let mut values = std::collections::HashMap::new();
    values.insert(name, value);
    text_template::Template::from(template).fill_in(&values).to_string()
}

/// A template with `${version}` filled in, where its white space is ASCII.
pub open spec fn spec_fill_version(template: Seq<char>, version: Seq<char>) -> Option<Seq<char>> {
    if spec_plain_spaces(template) {
        Some(template_fill(template, "version"@, version))
    } else {
        None
    }
}

/// Fills the version into a template, in place of `${version}`. A template
/// that holds white space outside ASCII is not filled in.
pub fn fill_version(template: &str, version: &str) -> (r: Option<String>)
    ensures
        r.deep_view() == spec_fill_version(template@, version@),
{
    if plain_spaces(template) {
        Some(fill_template(template, "version", version))
    } else {
        None
    }
}

/// What a plugin asks to have done after the installation.
pub enum AppPostInstallCommands {
    /// Mark the file at `path`, a template, as executable.
    SetExec { path: String },
}

/// The file that a command is about: its path with the version filled in,
/// inside `dest`. There is none where the path holds white space outside
/// ASCII or may lead out
/// of `dest`.
pub open spec fn spec_post_install_target(
    path: Seq<char>,
    version: Seq<char>,
    dest: Seq<char>,
) -> Option<Seq<char>> {
    match spec_fill_version(path, version) {
        Some(filled) => spec_scoped(dest, filled),
        None => None,
    }
}

/// The file that a command is about, given the version and the directory
/// that it is installed in.
pub fn process_post_install(command: &AppPostInstallCommands, version: &str, dest: &str) -> (r:
    Option<String>)
    ensures
        match command {
            AppPostInstallCommands::SetExec { path } => r.deep_view() == spec_post_install_target(
                path@,
                version@,
                dest@,
            ),
        },
{
    match command {
        AppPostInstallCommands::SetExec { path } => {
            match fill_version(path.as_str(), version) {
                Some(filled) => scoped_path(dest, filled.as_str()),
                None => None,
            }
        },
    }
}

} // verus!
