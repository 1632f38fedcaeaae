//! What the application asks of the desktop around it: which program opens
//! a folder, and which of its command-line arguments name files.

use crate::path::chars_of;
use vstd::prelude::*;

verus! {

/// A desktop platform.
#[derive(Clone, Copy, Debug, PartialEq, Eq, Structural)]
pub enum Platform {
    MacOs,
    Windows,
    Linux,
}

/// The name of the program that opens a folder in the platform's file
/// manager.
pub open spec fn opener(platform: Platform) -> Seq<char> {
    match platform {
        Platform::MacOs => "open"@,
        Platform::Windows => "explorer"@,
        Platform::Linux => "xdg-open"@,
    }
}

/// The name of the program that opens a folder in the platform's file
/// manager.
pub fn open_folder(platform: Platform) -> (command: &'static str)
    ensures
        command@ == opener(platform),
{
    match platform {
        Platform::MacOs => "open",
        Platform::Windows => "explorer",
        Platform::Linux => "xdg-open",
    }
}

/// Whether a command-line argument is a flag: it starts with `-`.
pub open spec fn is_flag(argument: Seq<char>) -> bool {
    argument.len() > 0 && argument[0] == '-'
}

/// The argument, if it may name a file.
pub open spec fn file_candidate(argument: String) -> Option<Seq<char>> {
    if is_flag(argument@) {
        None
    } else {
        Some(argument@)
    }
}

/// The arguments that may name files: all but the first, which names the
/// program, and but the flags; in their order.
pub open spec fn file_arguments(argv: Seq<String>) -> Seq<Seq<char>> {
    if argv.len() == 0 {
        Seq::empty()
    } else {
        argv.skip(1).filter_map(|argument: String| file_candidate(argument))
    }
}

/// The views of a list of strings.
pub open spec fn string_views(strings: Seq<String>) -> Seq<Seq<char>> {
    strings.map_values(|s: String| s@)
}

/// Whether a command-line argument is a flag.
pub fn starts_with_dash(argument: &str) -> (r: bool)
    ensures
        r == is_flag(argument@),
{
    let chars = chars_of(argument);
    chars.len() > 0 && chars[0] == '-'
}

/// The command-line arguments that may name files to open: the first, the
/// program's own name, and every flag are left out.
pub fn get_files_from_argv(argv: &Vec<String>) -> (files: Vec<String>)
    ensures
        string_views(files@) == file_arguments(argv@),
{
    let mut files: Vec<String> = Vec::new();
    if argv.len() == 0 {
        proof {
            assert(string_views(files@) =~= file_arguments(argv@));
        }
        return files;
    }
    let ghost rest = argv@.skip(1);
    let ghost candidate = |argument: String| file_candidate(argument);
    let mut i: usize = 1;
    proof {
        assert(rest.take(0) =~= Seq::<String>::empty());
        assert(string_views(files@) =~= rest.take(0).filter_map(candidate));
    }
    while i < argv.len()
        invariant
            1 <= i <= argv.len(),
            rest == argv@.skip(1),
            candidate == (|argument: String| file_candidate(argument)),
            string_views(files@) == rest.take(i - 1).filter_map(candidate),
        decreases argv.len() - i,
    {
        let ghost before = files@;
        proof {
            rest.lemma_filter_map_take_succ(candidate, i - 1);
            assert(rest[i - 1] == argv@[i as int]);
        }
        if !starts_with_dash(argv[i].as_str()) {
            files.push(argv[i].clone());
            proof {
                assert(string_views(files@) =~= string_views(before).push(argv@[i as int]@));
            }
        }
        i += 1;
    }
    proof {
        assert(rest.take(argv@.len() - 1) =~= rest);
    }
    files
}

/// The path that an argument names: the path of the file URL that it was
/// read as, where it could be read as one, and else the argument itself.
pub fn path_of_argument(argument: String, file_url_path: Option<String>) -> (path: String)
    ensures
        path == match file_url_path {
            Some(url_path) => url_path,
            None => argument,
        },
{
    match file_url_path {
        Some(url_path) => url_path,
        None => argument,
    }
}

} // verus!
