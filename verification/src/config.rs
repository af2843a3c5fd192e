use vstd::prelude::*;
use vstd::utf8::is_ascii_chars;
use crate::overlay::{ConfigOverlay, overlay_after, spec_assignment, spec_skippable, apply_line};
use crate::strutil::{
    spec_starts_with, spec_split_lines, lemma_find_props, find_char, trim_str, starts_with_str,
    str_eq, split_lines,
};

verus! {

/// Stores configuration for a specific class.
pub struct ClassConfig {
    pub class: String,
    pub account_name: Option<String>,
    pub home_dir: Option<String>,
    pub bin_path: Option<String>,
    pub man_path: Option<String>,
    pub newclassrc_path: Option<String>,
    pub custom_config: ConfigOverlay,
}

pub open spec fn is_digit_char(c: char) -> bool {
    '0' <= c && c <= '9'
}

pub open spec fn is_alpha_char(c: char) -> bool {
    ('a' <= c && c <= 'z') || ('A' <= c && c <= 'Z')
}

pub open spec fn all_digits(s: Seq<char>) -> bool {
    forall|j: int| 0 <= j < s.len() ==> is_digit_char(#[trigger] s[j])
}

pub open spec fn all_alpha(s: Seq<char>) -> bool {
    forall|j: int| 0 <= j < s.len() ==> is_alpha_char(#[trigger] s[j])
}

pub open spec fn spec_upper_char(c: char) -> char {
    if 'a' <= c && c <= 'z' {
        ((c as u8) - 32) as char
    } else {
        c
    }
}

pub open spec fn spec_ascii_upper(s: Seq<char>) -> Seq<char> {
    s.map_values(|c: char| spec_upper_char(c))
}

/// Relies on str::to_ascii_uppercase: each ASCII lowercase letter is replaced
/// by its uppercase counterpart and every other character is unchanged.
#[verifier::external_body]
fn ascii_uppercase(s: &str) -> (r: String)
    ensures
        r@ == spec_ascii_upper(s@),
{
    s.to_ascii_uppercase()
}

/// Relies on std::path::Path::exists: whether the path refers to an existing
/// filesystem entity here and now; nothing further can be said of the answer.
#[verifier::external_body]
fn path_exists(p: &str) -> bool {
    std::path::Path::new(p).exists()
}

/// The full class name a class code denotes, if any: a four-character code
/// starting `109` maps into the `DPST` family, four digits into `COMP`,
/// `cs` plus four digits into `COMP`, and a name of four letters plus four
/// digits is taken as is, uppercased. Codes with non-ASCII characters are
/// rejected.
pub open spec fn spec_parse_class_code(s: Seq<char>) -> Option<Seq<char>> {
    if !is_ascii_chars(s) {
        None
    } else if s.len() == 4 && spec_starts_with(s, "109"@) {
        Some("DPST"@ + s)
    } else if s.len() == 4 && all_digits(s) {
        Some("COMP"@ + s)
    } else if s.len() == 6 && spec_starts_with(s, "cs"@) && all_digits(s.skip(2)) {
        Some("COMP"@ + s.skip(2))
    } else if s.len() == 8 && all_alpha(s.take(4)) && all_digits(s.skip(4)) {
        Some(spec_ascii_upper(s))
    } else {
        None
    }
}

/// The account short code for a class-name prefix, if the prefix is known.
pub open spec fn spec_account_prefix(p: Seq<char>) -> Option<Seq<char>> {
    if p == "COMP"@ {
        Some("cs"@)
    } else if p == "SENG"@ {
        Some("se"@)
    } else if p == "BINF"@ {
        Some("bi"@)
    } else if p == "DPST"@ {
        Some("dp"@)
    } else if p == "ENGG"@ {
        Some("en"@)
    } else if p == "GENE"@ {
        Some("ge"@)
    } else if p == "GSOE"@ {
        Some("gs"@)
    } else if p == "HSCH"@ {
        Some("hs"@)
    } else if p == "INFS"@ {
        Some("is"@)
    } else if p == "REGZ"@ {
        Some("rz"@)
    } else {
        None
    }
}

/// The system account for a class name: the short code of its four-letter
/// prefix followed by characters four to eight of the name.
pub open spec fn spec_derive_account_name(class: Seq<char>) -> Option<Seq<char>> {
    if class.len() < 8 {
        None
    } else {
        match spec_account_prefix(class.take(4)) {
            Some(code) => Some(code + class.subrange(4, 8)),
            None => None,
        }
    }
}

fn exec_all_digits(s: &str) -> (r: bool)
    ensures
        r == all_digits(s@),
{
    let len = s.unicode_len();
    let mut i: usize = 0;
    while i < len
        invariant
            i <= len,
            len == s@.len(),
            forall|j: int| 0 <= j < i ==> is_digit_char(#[trigger] s@[j]),
        decreases len - i,
    {
        let c = s.get_char(i);
        if !('0' <= c && c <= '9') {
            return false;
        }
        i = i + 1;
    }
    true
}

fn exec_all_alpha(s: &str) -> (r: bool)
    ensures
        r == all_alpha(s@),
{
    let len = s.unicode_len();
    let mut i: usize = 0;
    while i < len
        invariant
            i <= len,
            len == s@.len(),
            forall|j: int| 0 <= j < i ==> is_alpha_char(#[trigger] s@[j]),
        decreases len - i,
    {
        let c = s.get_char(i);
        if !(('a' <= c && c <= 'z') || ('A' <= c && c <= 'Z')) {
            return false;
        }
        i = i + 1;
    }
    true
}

/// Parse a class code into a full class name.
pub fn parse_class_code(code: &str) -> (r: Option<String>)
    ensures
        match r {
            Some(name) => spec_parse_class_code(code@) == Some(name@),
            None => spec_parse_class_code(code@) is None,
        },
{
    if !code.is_ascii() {
        return None;
    }
    let len = code.unicode_len();
    if len == 4 && starts_with_str(code, "109") {
        let mut name = String::new();
        name.append("DPST");
        name.append(code);
        Some(name)
    } else if len == 4 && exec_all_digits(code) {
        let mut name = String::new();
        name.append("COMP");
        name.append(code);
        Some(name)
    } else if len == 6 && starts_with_str(code, "cs") && exec_all_digits(
        code.substring_char(2, 6),
    ) {
        let mut name = String::new();
        name.append("COMP");
        name.append(code.substring_char(2, 6));
        proof {
            assert(code@.subrange(2, 6) =~= code@.skip(2));
        }
        Some(name)
    } else if len == 8 && exec_all_alpha(code.substring_char(0, 4)) && exec_all_digits(
        code.substring_char(4, 8),
    ) {
        proof {
            assert(code@.subrange(0, 4) =~= code@.take(4));
            assert(code@.subrange(4, 8) =~= code@.skip(4));
        }
        Some(ascii_uppercase(code))
    } else {
        None
    }
}

/// Derive the account name from a class name.
pub fn derive_account_name(class: &str) -> (r: Option<String>)
    ensures
        match r {
            Some(account) => spec_derive_account_name(class@) == Some(account@),
            None => spec_derive_account_name(class@) is None,
        },
{
    let len = class.unicode_len();
    if len < 8 {
        return None;
    }
    let prefix = class.substring_char(0, 4);
    let number = class.substring_char(4, 8);
    proof {
        assert(class@.subrange(0, 4) =~= class@.take(4));
    }
    let code: &str = if str_eq(prefix, "COMP") {
        "cs"
    } else if str_eq(prefix, "SENG") {
        "se"
    } else if str_eq(prefix, "BINF") {
        "bi"
    } else if str_eq(prefix, "DPST") {
        "dp"
    } else if str_eq(prefix, "ENGG") {
        "en"
    } else if str_eq(prefix, "GENE") {
        "ge"
    } else if str_eq(prefix, "GSOE") {
        "gs"
    } else if str_eq(prefix, "HSCH") {
        "hs"
    } else if str_eq(prefix, "INFS") {
        "is"
    } else if str_eq(prefix, "REGZ") {
        "rz"
    } else {
        return None;
    };
    let mut account = String::new();
    account.append(code);
    account.append(number);
    Some(account)
}

impl ClassConfig {
    /// The structural invariant: the overlay mapping keeps its keys unique.
    pub open spec fn wf(&self) -> bool {
        self.custom_config.wf()
    }

    /// Create a new ClassConfig from a class code.
    pub fn new(class_code: &str) -> (r: Option<Self>)
        ensures
            match r {
                Some(c) => {
                    &&& c.wf()
                    &&& spec_parse_class_code(class_code@) == Some(c.class@)
                    &&& c.custom_config@ == Map::<Seq<char>, Seq<char>>::empty()
                    &&& match spec_derive_account_name(c.class@) {
                        Some(a) => {
                            &&& c.account_name matches Some(an) && an@ == a
                            &&& c.home_dir matches Some(h) && h@ == "/home/"@ + a
                            &&& c.bin_path matches Some(b) && b@ == "/home/"@ + a + "/bin"@
                            &&& c.man_path matches Some(mp) && mp@ == "/home/"@ + a + "/man"@
                            &&& c.newclassrc_path matches Some(n) && n@ == "/home/"@ + a
                                + "/.newclassrc"@
                        },
                        None => {
                            &&& c.account_name is None
                            &&& c.home_dir is None
                            &&& c.bin_path is None
                            &&& c.man_path is None
                            &&& c.newclassrc_path is None
                        },
                    }
                },
                None => spec_parse_class_code(class_code@) is None,
            },
    {
        let class = match parse_class_code(class_code) {
            Some(c) => c,
            None => {
                return None;
            },
        };
        let account_name = derive_account_name(class.as_str());
        let mut config = ClassConfig {
            class,
            account_name,
            home_dir: None,
            bin_path: None,
            man_path: None,
            newclassrc_path: None,
            custom_config: ConfigOverlay::new(),
        };
        match &config.account_name {
            Some(account) => {
                let mut home_dir = String::new();
                home_dir.append("/home/");
                home_dir.append(account.as_str());
                let mut bin_path = home_dir.clone();
                bin_path.append("/bin");
                let mut man_path = home_dir.clone();
                man_path.append("/man");
                let mut newclassrc_path = home_dir.clone();
                newclassrc_path.append("/.newclassrc");
                config.home_dir = Some(home_dir);
                config.bin_path = Some(bin_path);
                config.man_path = Some(man_path);
                config.newclassrc_path = Some(newclassrc_path);
            },
            None => {},
        }
        Some(config)
    }

    /// Parse a variable assignment line from the overlay dialect.
    pub fn parse_variable_assignment(&self, line: &str) -> (r: Option<(String, String)>)
        ensures
            match r {
                Some(kv) => spec_assignment(line@) == Some((kv.0@, kv.1@)),
                None => spec_assignment(line@) is None,
            },
    {
        proof {
            lemma_find_props(line@, '=');
        }
        match find_char(line, '=') {
            None => None,
            Some(i) => {
                let len = line.unicode_len();
                let name = trim_str(line.substring_char(0, i));
                let raw = trim_str(line.substring_char(i + 1, len));
                let value = strip_quotes(raw);
                Some((name, value))
            },
        }
    }

    /// Parse overlay text and load all variable assignments into
    /// `custom_config`, later assignments to a key overwriting earlier ones.
    pub fn load_bash_config(&mut self, contents: &str)
        requires
            old(self).wf(),
        ensures
            final(self).wf(),
            final(self).custom_config@ == overlay_after(
                old(self).custom_config@,
                spec_split_lines(contents@),
            ),
            final(self).class == old(self).class,
            final(self).account_name == old(self).account_name,
            final(self).home_dir == old(self).home_dir,
            final(self).bin_path == old(self).bin_path,
            final(self).man_path == old(self).man_path,
            final(self).newclassrc_path == old(self).newclassrc_path,
    {
        let lines = split_lines(contents);
        let ghost all = spec_split_lines(contents@);
        let ghost m0 = old(self).custom_config@;
        let n = lines.len();
        let mut i: usize = 0;
        while i < n
            invariant
                i <= n,
                n == lines@.len(),
                lines.deep_view() == all,
                self.wf(),
                self.custom_config@ == overlay_after(m0, all.take(i as int)),
                self.class == old(self).class,
                self.account_name == old(self).account_name,
                self.home_dir == old(self).home_dir,
                self.bin_path == old(self).bin_path,
                self.man_path == old(self).man_path,
                self.newclassrc_path == old(self).newclassrc_path,
            decreases n - i,
        {
            let ghost prev = self.custom_config@;
            let line = &lines[i];
            proof {
                assert(all[i as int] == line@);
            }
            let trimmed = trim_str(line.as_str());
            let skip = trimmed.as_str().is_empty() || trimmed.as_str().get_char(0) == '#'
                || starts_with_str(trimmed.as_str(), "unset ") || starts_with_str(
                trimmed.as_str(),
                "export ",
            );
            if !skip {
                match self.parse_variable_assignment(line.as_str()) {
                    Some((name, value)) => {
                        self.custom_config.insert(name, value);
                    },
                    None => {},
                }
            }
            proof {
                assert(skip == spec_skippable(line@));
                assert(self.custom_config@ == apply_line(prev, all[i as int]));
                assert(all.take(i + 1).drop_last() =~= all.take(i as int));
                assert(all.take(i + 1).last() == all[i as int]);
            }
            i = i + 1;
        }
        proof {
            assert(all.take(n as int) =~= all);
        }
    }

    /// Get a custom configuration value.
    pub fn get_custom_config(&self, key: &str) -> (r: Option<&String>)
        requires
            self.wf(),
        ensures
            match r {
                Some(v) => self.custom_config@.contains_key(key@) && v@
                    == self.custom_config@.index(key@),
                None => !self.custom_config@.contains_key(key@),
            },
    {
        self.custom_config.get(key)
    }

    /// Check whether the class has a `.newclassrc` file on disk; a class with
    /// no such path configured has none.
    pub fn has_newclassrc(&self) -> (r: bool)
        ensures
            self.newclassrc_path is None ==> r == false,
    {
        match &self.newclassrc_path {
            Some(path) => path_exists(path.as_str()),
            None => false,
        }
    }

    /// Get the configured PATH for this class: the class bin directory put
    /// before the original path, colon-separated.
    pub fn get_path(&self, original_path: &str) -> (r: String)
        ensures
            match self.bin_path {
                Some(b) => r@ == b@ + ":"@ + original_path@,
                None => r@ == original_path@,
            },
    {
        match &self.bin_path {
            Some(bin_path) => {
                let mut r = bin_path.clone();
                r.append(":");
                r.append(original_path);
                r
            },
            None => original_path.to_owned(),
        }
    }

    /// Get the configured MANPATH for this class: the class man directory put
    /// before the original manpath, colon-separated.
    pub fn get_manpath(&self, original_manpath: &str) -> (r: String)
        ensures
            match self.man_path {
                Some(mv) => r@ == mv@ + ":"@ + original_manpath@,
                None => r@ == original_manpath@,
            },
    {
        match &self.man_path {
            Some(man_path) => {
                let mut r = man_path.clone();
                r.append(":");
                r.append(original_manpath);
                r
            },
            None => original_manpath.to_owned(),
        }
    }
}

fn strip_quotes(v: String) -> (r: String)
    ensures
        r@ == crate::overlay::spec_strip_quotes(v@),
{
    let len = v.as_str().unicode_len();
    if len >= 2 {
        let first = v.as_str().get_char(0);
        let last = v.as_str().get_char(len - 1);
        if first == last && (first == '\'' || first == '"') {
            return v.as_str().substring_char(1, len - 1).to_owned();
        }
    }
    v
}

} // verus!
