//! Extension-based file classification: every path is assigned exactly
//! one semantic category, a total function of its lowercased extension.
use vstd::prelude::*;
use crate::text::str_chars;

verus! {

/// The characters of `s` that follow its last occurrence of `c`;
/// all of `s` when `c` does not occur.
pub open spec fn spec_after_last(s: Seq<char>, c: char) -> Seq<char>
    decreases s.len(),
{
    if s.len() == 0 {
        s
    } else if s[s.len() - 1] == c {
        Seq::empty()
    } else {
        spec_after_last(s.drop_last(), c).push(s[s.len() - 1])
    }
}

proof fn lemma_after_last_cut(s: Seq<char>, c: char, cut: int)
    requires
        0 <= cut < s.len(),
        s[cut] == c,
        forall|k: int| cut < k < s.len() ==> s[k] != c,
    ensures
        spec_after_last(s, c) == s.subrange(cut + 1, s.len() as int),
    decreases s.len(),
{
    if cut == s.len() - 1 {
        assert(spec_after_last(s, c) =~= s.subrange(cut + 1, s.len() as int));
    } else {
        lemma_after_last_cut(s.drop_last(), c, cut);
        assert(s.drop_last().subrange(cut + 1, s.len() - 1) =~= s.subrange(
            cut + 1,
            s.len() - 1,
        ));
        assert(s.subrange(cut + 1, s.len() - 1).push(s[s.len() - 1]) =~= s.subrange(
            cut + 1,
            s.len() as int,
        ));
    }
}

proof fn lemma_after_last_none(s: Seq<char>, c: char)
    requires
        forall|k: int| 0 <= k < s.len() ==> s[k] != c,
    ensures
        spec_after_last(s, c) == s,
    decreases s.len(),
{
    if s.len() > 0 {
        lemma_after_last_none(s.drop_last(), c);
        assert(s.drop_last().push(s[s.len() - 1]) =~= s);
    }
}

/// The characters after the last occurrence of `c`, or all of `v`.
pub fn after_last(v: &Vec<char>, c: char) -> (r: Vec<char>)
    ensures
        r@ == spec_after_last(v@, c),
{
    let mut i: usize = v.len();
    while i > 0 && v[i - 1] != c
        invariant
            i <= v@.len(),
            forall|k: int| i <= k < v@.len() ==> v@[k] != c,
        decreases i,
    {
        i -= 1;
    }
    let mut r: Vec<char> = Vec::new();
    let mut j: usize = i;
    while j < v.len()
        invariant
            i <= j <= v@.len(),
            r@ == v@.subrange(i as int, j as int),
        decreases v@.len() - j,
    {
        r.push(v[j]);
        j += 1;
        proof {
            assert(r@ =~= v@.subrange(i as int, j as int));
        }
    }
    proof {
        if i == 0 {
            lemma_after_last_none(v@, c);
            assert(r@ =~= v@);
        } else {
            lemma_after_last_cut(v@, c, i - 1);
        }
    }
    r
}

/// The final path segment: what follows the last `/`.
pub open spec fn spec_file_name(p: Seq<char>) -> Seq<char> {
    spec_after_last(p, '/')
}

/// Whether the file name carries an extension: a dot at a position
/// after the first character (a name that only starts with a dot has
/// no extension).
pub open spec fn spec_has_extension(p: Seq<char>) -> bool {
    exists|i: int| 1 <= i < spec_file_name(p).len() && spec_file_name(p)[i] == '.'
}

/// The extension of the final path segment, without its dot.
pub open spec fn spec_extension(p: Seq<char>) -> Seq<char> {
    spec_after_last(spec_file_name(p), '.')
}

/// ASCII lowercasing of one character.
pub open spec fn spec_lower_char(c: char) -> char {
    if ('A' as u32) <= (c as u32) && (c as u32) <= ('Z' as u32) {
        (((c as u8) + 32) as char)
    } else {
        c
    }
}

/// ASCII lowercasing of a character sequence.
pub open spec fn spec_lower(s: Seq<char>) -> Seq<char> {
    s.map_values(|c: char| spec_lower_char(c))
}

fn lower_char(c: char) -> (r: char)
    ensures
        r == spec_lower_char(c),
{
    if ('A' as u32) <= (c as u32) && (c as u32) <= ('Z' as u32) {
        ((c as u8) + 32) as char
    } else {
        c
    }
}

pub fn lower_chars(v: &Vec<char>) -> (r: Vec<char>)
    ensures
        r@ == spec_lower(v@),
{
    let mut r: Vec<char> = Vec::new();
    let mut i: usize = 0;
    while i < v.len()
        invariant
            i <= v@.len(),
            r@ == spec_lower(v@.subrange(0, i as int)),
        decreases v@.len() - i,
    {
        r.push(lower_char(v[i]));
        i += 1;
        proof {
            assert(r@ =~= spec_lower(v@.subrange(0, i as int)));
        }
    }
    proof {
        assert(v@.subrange(0, v@.len() as int) =~= v@);
    }
    r
}

/// Equality of a character vector against a string slice.
pub fn chars_eq_str(v: &Vec<char>, s: &str) -> (r: bool)
    ensures
        r == (v@ == s@),
{
    let sv = str_chars(s);
    if v.len() != sv.len() {
        return false;
    }
    let mut i: usize = 0;
    while i < v.len()
        invariant
            i <= v@.len(),
            v@.len() == sv@.len(),
            sv@ == s@,
            forall|k: int| 0 <= k < i ==> v@[k] == sv@[k],
        decreases v@.len() - i,
    {
        if v[i] != sv[i] {
            return false;
        }
        i += 1;
    }
    proof {
        assert(v@ =~= s@);
    }
    true
}

/// The semantic category of a file, one of eight.
#[derive(Clone, Copy, Debug, PartialEq, Eq, Structural)]
pub enum FileCategory {
    Jar,
    ZipFamily,
    Java,
    Config,
    Script,
    Markup,
    Text,
    Other,
}

/// The category that a lowercased extension maps to; files without an
/// extension fall to `Other`. Total over all inputs.
pub open spec fn spec_category_of_ext(e: Seq<char>) -> FileCategory {
    if e == "jar"@ {
        FileCategory::Jar
    } else if e == "zip"@ || e == "war"@ || e == "ear"@ {
        FileCategory::ZipFamily
    } else if e == "java"@ {
        FileCategory::Java
    } else if e == "properties"@ || e == "conf"@ || e == "config"@ || e == "cfg"@ || e == "ini"@ {
        FileCategory::Config
    } else if e == "bat"@ || e == "cmd"@ || e == "sh"@ || e == "ps1"@ || e == "py"@ || e == "rb"@ {
        FileCategory::Script
    } else if e == "xml"@ || e == "xsd"@ || e == "xsl"@ || e == "xslt"@ {
        FileCategory::Markup
    } else if e == "txt"@ || e == "md"@ || e == "log"@ || e == "yaml"@ || e == "yml"@ || e
        == "json"@ {
        FileCategory::Text
    } else {
        FileCategory::Other
    }
}

/// The category of a path: by its lowercased extension.
pub open spec fn spec_classify(p: Seq<char>) -> FileCategory {
    if spec_has_extension(p) {
        spec_category_of_ext(spec_lower(spec_extension(p)))
    } else {
        FileCategory::Other
    }
}

/// The extension of a path as a character vector, when the file name
/// has one.
pub fn extension_of(path: &Vec<char>) -> (r: Option<Vec<char>>)
    ensures
        r is Some <==> spec_has_extension(path@),
        r is Some ==> r->0@ == spec_extension(path@),
{
    let name = after_last(path, '/');
    let mut has_dot = false;
    let mut i: usize = 1;
    while i < name.len()
        invariant
            1 <= i,
            name@.len() > 0 ==> i <= name@.len(),
            has_dot == exists|k: int|
                1 <= k < i && k < name@.len() && #[trigger] name@[k] == '.',
        decreases name@.len() - i,
    {
        if name[i] == '.' {
            has_dot = true;
        }
        i += 1;
    }
    proof {
        assert(name@ == spec_file_name(path@));
        if has_dot {
            let k = choose|k: int|
                1 <= k < i && k < name@.len() && #[trigger] name@[k] == '.';
            assert(1 <= k < spec_file_name(path@).len() && spec_file_name(path@)[k] == '.');
            assert(spec_has_extension(path@));
        } else if spec_has_extension(path@) {
            let k = choose|j: int|
                1 <= j < spec_file_name(path@).len() && spec_file_name(path@)[j] == '.';
            assert(1 <= k < i && k < name@.len() && name@[k] == '.');
        }
    }
    if has_dot {
        Some(after_last(&name, '.'))
    } else {
        None
    }
}

fn category_of_ext(e: &Vec<char>) -> (r: FileCategory)
    ensures
        r == spec_category_of_ext(e@),
{
    if chars_eq_str(e, "jar") {
        FileCategory::Jar
    } else if chars_eq_str(e, "zip") || chars_eq_str(e, "war") || chars_eq_str(e, "ear") {
        FileCategory::ZipFamily
    } else if chars_eq_str(e, "java") {
        FileCategory::Java
    } else if chars_eq_str(e, "properties") || chars_eq_str(e, "conf") || chars_eq_str(e, "config")
        || chars_eq_str(e, "cfg") || chars_eq_str(e, "ini") {
        FileCategory::Config
    } else if chars_eq_str(e, "bat") || chars_eq_str(e, "cmd") || chars_eq_str(e, "sh")
        || chars_eq_str(e, "ps1") || chars_eq_str(e, "py") || chars_eq_str(e, "rb") {
        FileCategory::Script
    } else if chars_eq_str(e, "xml") || chars_eq_str(e, "xsd") || chars_eq_str(e, "xsl")
        || chars_eq_str(e, "xslt") {
        FileCategory::Markup
    } else if chars_eq_str(e, "txt") || chars_eq_str(e, "md") || chars_eq_str(e, "log")
        || chars_eq_str(e, "yaml") || chars_eq_str(e, "yml") || chars_eq_str(e, "json") {
        FileCategory::Text
    } else {
        FileCategory::Other
    }
}

/// Classify a path into its unique category.
pub fn classify(path: &Vec<char>) -> (r: FileCategory)
    ensures
        r == spec_classify(path@),
{
    match extension_of(path) {
        Some(e) => {
            let low = lower_chars(&e);
            category_of_ext(&low)
        },
        None => FileCategory::Other,
    }
}

/// The reporting tag for a loose file, derived from its extension.
pub open spec fn spec_type_tag(p: Seq<char>) -> Seq<char> {
    if !spec_has_extension(p) {
        "no_extension"@
    } else {
        let e = spec_lower(spec_extension(p));
        if e == "properties"@ {
            "properties_config"@
        } else if e == "conf"@ || e == "config"@ || e == "cfg"@ {
            "configuration"@
        } else if e == "bat"@ || e == "cmd"@ {
            "batch_script"@
        } else if e == "sh"@ {
            "shell_script"@
        } else if e == "xml"@ || e == "xsd"@ || e == "xsl"@ || e == "xslt"@ {
            "xml_document"@
        } else if e == "json"@ {
            "json_data"@
        } else if e == "yaml"@ || e == "yml"@ {
            "yaml_data"@
        } else if e == "ini"@ {
            "ini_config"@
        } else if e == "ps1"@ {
            "powershell_script"@
        } else if e == "log"@ {
            "log_file"@
        } else if e == "txt"@ {
            "text_file"@
        } else if e == "md"@ {
            "markdown"@
        } else if e == "py"@ {
            "python_script"@
        } else if e == "rb"@ {
            "ruby_script"@
        } else {
            e
        }
    }
}

/// The reporting tag for a loose file.
pub fn type_tag(path: &Vec<char>) -> (r: String)
    ensures
        r@ == spec_type_tag(path@),
{
    match extension_of(path) {
        Some(e) => {
            let low = lower_chars(&e);
            if chars_eq_str(&low, "properties") {
                "properties_config".to_owned()
            } else if chars_eq_str(&low, "conf") || chars_eq_str(&low, "config") || chars_eq_str(
                &low,
                "cfg",
            ) {
                "configuration".to_owned()
            } else if chars_eq_str(&low, "bat") || chars_eq_str(&low, "cmd") {
                "batch_script".to_owned()
            } else if chars_eq_str(&low, "sh") {
                "shell_script".to_owned()
            } else if chars_eq_str(&low, "xml") || chars_eq_str(&low, "xsd") || chars_eq_str(
                &low,
                "xsl",
            ) || chars_eq_str(&low, "xslt") {
                "xml_document".to_owned()
            } else if chars_eq_str(&low, "json") {
                "json_data".to_owned()
            } else if chars_eq_str(&low, "yaml") || chars_eq_str(&low, "yml") {
                "yaml_data".to_owned()
            } else if chars_eq_str(&low, "ini") {
                "ini_config".to_owned()
            } else if chars_eq_str(&low, "ps1") {
                "powershell_script".to_owned()
            } else if chars_eq_str(&low, "log") {
                "log_file".to_owned()
            } else if chars_eq_str(&low, "txt") {
                "text_file".to_owned()
            } else if chars_eq_str(&low, "md") {
                "markdown".to_owned()
            } else if chars_eq_str(&low, "py") {
                "python_script".to_owned()
            } else if chars_eq_str(&low, "rb") {
                "ruby_script".to_owned()
            } else {
                crate::text::chars_to_string(&low)
            }
        },
        None => "no_extension".to_owned(),
    }
}

/// The tag for an entry inside a container: what follows the last dot
/// of its name, or the whole name when it has no dot.
pub open spec fn spec_entry_tag(name: Seq<char>) -> Seq<char> {
    spec_after_last(name, '.')
}

/// The tag for an entry inside a container.
pub fn entry_tag(name: &Vec<char>) -> (r: String)
    ensures
        r@ == spec_entry_tag(name@),
{
    let t = after_last(name, '.');
    crate::text::chars_to_string(&t)
}

} // verus!
