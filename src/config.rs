//! The client credentials and the INI file that holds them: keys `client_id`
//! and `client_secret` in the general (unnamed) section.
use ini::Ini;
use vstd::prelude::*;
use vstd::std_specs::iter::IteratorSpec;
use vstd::string::{axiom_spec_iter, next_postcondition};

verus! {

#[verifier::external_type_specification]
#[verifier::external_body]
pub struct ExIni(Ini);

/// What the general section of an INI document holds: each key, with the
/// first value stored under it (empty where the document has no general
/// section).
pub uninterp spec fn general_section_of(i: Ini) -> Map<Seq<char>, Seq<char>>;

/// The names of the sections that an INI document holds, `None` standing
/// for the general section.
pub uninterp spec fn section_names_of(i: Ini) -> Set<Option<Seq<char>>>;

/// The general section of the INI document that the text `s` holds, or
/// `None` where `s` is not a well-formed INI document.
pub uninterp spec fn parsed_general_section(s: Seq<char>) -> Option<Map<Seq<char>, Seq<char>>>;

/// Where the INI reader stands while it reads a text: between entries, in a
/// comment line, in a section name, in a key, in the blanks after `=`, in a
/// quoted value (with its quote), or in the rest of a value. In the last
/// four, but for the blanks, a backslash starts an escape.
#[derive(Clone, Copy, Debug, PartialEq, Eq)]
pub enum IniReadState {
    Between,
    Comment,
    Section,
    Key,
    ValueStart,
    Quoted(char),
    Value,
}

/// The reader reads escapes in this state.
pub open spec fn reads_escapes(st: IniReadState) -> bool {
    match st {
        IniReadState::Section | IniReadState::Key | IniReadState::Quoted(_) | IniReadState::Value => true,
        _ => false,
    }
}

/// A blank that the reader skips after `=`: any white space but a line break,
/// and the tab.
pub open spec fn is_value_blank(c: char) -> bool {
    c == '\t' || (is_white_space(c) && c != '\n' && c != '\r')
}

/// The state in which the reader takes the character `c` when it comes to it
/// in state `st`: a character that starts nothing else starts a key, and one
/// after the blanks that follow `=` starts a value.
pub open spec fn state_for(c: char, st: IniReadState) -> IniReadState {
    match st {
        IniReadState::Between => {
            if is_white_space(c) || c == ';' || c == '#' || c == '[' || c == '=' || c == ':' {
                IniReadState::Between
            } else {
                IniReadState::Key
            }
        },
        IniReadState::ValueStart => {
            if is_value_blank(c) || c == '"' || c == '\'' {
                IniReadState::ValueStart
            } else {
                IniReadState::Value
            }
        },
        _ => st,
    }
}

/// The state after the reader has taken `c`, not an escape, in state `st`
/// (as `state_for` gives it).
pub open spec fn state_after(c: char, st: IniReadState) -> IniReadState {
    match st {
        IniReadState::Between => {
            if c == ';' || c == '#' {
                IniReadState::Comment
            } else if c == '[' {
                IniReadState::Section
            } else if c == '=' || c == ':' {
                IniReadState::ValueStart
            } else {
                IniReadState::Between
            }
        },
        IniReadState::Comment => if c == '\n' {
            IniReadState::Between
        } else {
            IniReadState::Comment
        },
        IniReadState::Section => if c == ']' {
            IniReadState::Between
        } else {
            IniReadState::Section
        },
        IniReadState::Key => if c == '=' || c == ':' {
            IniReadState::ValueStart
        } else {
            IniReadState::Key
        },
        IniReadState::ValueStart => if c == '"' || c == '\'' {
            IniReadState::Quoted(c)
        } else {
            IniReadState::ValueStart
        },
        IniReadState::Quoted(q) => if c == q {
            IniReadState::Value
        } else {
            IniReadState::Quoted(q)
        },
        IniReadState::Value => if c == '\n' || c == '\r' {
            IniReadState::Between
        } else {
            IniReadState::Value
        },
    }
}

/// At position `i` the text holds `\x` followed by `D8` to `DF` (either
/// case): where the backslash starts an escape, its four hex digits begin
/// with those of a surrogate code, which is no `char`.
pub open spec fn is_surrogate_escape_at(s: Seq<char>, i: int) -> bool {
    &&& 0 <= i
    &&& i + 3 < s.len()
    &&& s[i] == '\\'
    &&& s[i + 1] == 'x'
    &&& (s[i + 2] == 'd' || s[i + 2] == 'D')
    &&& ('8' <= s[i + 3] <= '9' || 'a' <= s[i + 3] <= 'f' || 'A' <= s[i + 3] <= 'F')
}

/// Reading `s` from position `i` in state `st`, the reader comes to a
/// backslash that starts an escape of a surrogate code. An escape `\x` takes
/// the four characters after it, any other escape the one character after
/// it. Past a point where the text is malformed the answer does not matter:
/// the reader stops there with an error.
pub open spec fn surrogate_escape_from(s: Seq<char>, i: int, st: IniReadState) -> bool
    decreases s.len() - i,
{
    if i < 0 || i >= s.len() {
        false
    } else {
        let c = s[i];
        let cur = state_for(c, st);
        if reads_escapes(cur) && c == '\\' {
            if i + 1 >= s.len() {
                false
            } else if s[i + 1] == 'x' {
                if is_surrogate_escape_at(s, i) {
                    true
                } else if i + 6 > s.len() {
                    false
                } else {
                    surrogate_escape_from(s, i + 6, cur)
                }
            } else {
                surrogate_escape_from(s, i + 2, cur)
            }
        } else {
            surrogate_escape_from(s, i + 1, state_after(c, cur))
        }
    }
}

/// The INI reader, from the start of the text, comes to an escape of a
/// surrogate code.
pub open spec fn has_surrogate_escape(s: Seq<char>) -> bool {
    surrogate_escape_from(s, 0, IniReadState::Between)
}

/// Relies on ini::Ini::load_from_str (rust-ini 0.15): the document that the
/// text holds, or an error where the text is not well-formed. The parser
/// trims every value. It panics where it reads a `\x` escape whose four hex
/// digits are a surrogate code (D800 to DFFF), which has no `char`: such
/// text is left out.
#[verifier::external_body]
fn ini_from_text(text: &str) -> (r: Option<Ini>)
    requires
        !has_surrogate_escape(text@),
    ensures
        r is Some <==> parsed_general_section(text@) is Some,
        r matches Some(i) ==> general_section_of(i) == parsed_general_section(text@)->Some_0,
        r matches Some(i) ==> forall|k: Seq<char>| #[trigger]
            general_section_of(i).contains_key(k) ==> trimmed(general_section_of(i)[k])
                == general_section_of(i)[k],
{
    Ini::load_from_str(text).ok()
}

/// Relies on ini::Ini::new: a document with no sections.
#[verifier::external_body]
fn ini_empty() -> (r: Ini)
    ensures
        general_section_of(r).dom().is_empty(),
        section_names_of(r).is_empty(),
{
    Ini::new()
}

/// Relies on ini::Ini::set_to with no section name: the general section is
/// created if absent, and `key` then holds `value` alone.
#[verifier::external_body]
fn ini_set_general(ini: &mut Ini, key: &str, value: &str)
    ensures
        general_section_of(*final(ini)) == general_section_of(*old(ini)).insert(key@, value@),
        section_names_of(*final(ini)) == section_names_of(*old(ini)).insert(None),
{
    ini.set_to(None::<String>, key.to_string(), value.to_string())
}

/// Relies on ini::Ini::get_from with no section name: the first value under
/// `key` in the general section, if there is one.
#[verifier::external_body]
fn ini_get_general(ini: &Ini, key: &str) -> (r: Option<String>)
    ensures
        r is Some <==> general_section_of(*ini).contains_key(key@),
        r matches Some(v) ==> v@ == general_section_of(*ini)[key@],
{
    ini.get_from(None::<String>, key).map(String::from)
}

/// Unicode White_Space, the whitespace of `char::is_whitespace` and `str::trim`.
pub open spec fn is_white_space(c: char) -> bool {
    ||| '\t' <= c <= '\r'
    ||| c == ' '
    ||| c == '\u{85}'
    ||| c == '\u{a0}'
    ||| c == '\u{1680}'
    ||| '\u{2000}' <= c <= '\u{200a}'
    ||| c == '\u{2028}'
    ||| c == '\u{2029}'
    ||| c == '\u{202f}'
    ||| c == '\u{205f}'
    ||| c == '\u{3000}'
}

/// `s` without its leading whitespace.
pub open spec fn trim_start_of(s: Seq<char>) -> Seq<char>
    decreases s.len(),
{
    if s.len() > 0 && is_white_space(s[0]) {
        trim_start_of(s.drop_first())
    } else {
        s
    }
}

/// `s` without its trailing whitespace.
pub open spec fn trim_end_of(s: Seq<char>) -> Seq<char>
    decreases s.len(),
{
    if s.len() > 0 && is_white_space(s.last()) {
        trim_end_of(s.drop_last())
    } else {
        s
    }
}

/// `s` without its leading and trailing whitespace.
pub open spec fn trimmed(s: Seq<char>) -> Seq<char> {
    trim_end_of(trim_start_of(s))
}

/// Relies on str::trim: leading and trailing White_Space removed.
#[verifier::external_body]
fn trim_text(s: &str) -> (r: String)
    ensures
        r@ == trimmed(s@),
{
    s.trim().to_string()
}

fn white_space(c: char) -> (r: bool)
    ensures
        r == is_white_space(c),
{
    ('\t' <= c && c <= '\r') || c == ' ' || c == '\u{85}' || c == '\u{a0}' || c == '\u{1680}' || ('\u{2000}'
        <= c && c <= '\u{200a}') || c == '\u{2028}' || c == '\u{2029}' || c == '\u{202f}' || c == '\u{205f}'
        || c == '\u{3000}'
}

fn read_state_for(c: char, st: IniReadState) -> (r: IniReadState)
    ensures
        r == state_for(c, st),
{
    match st {
        IniReadState::Between => {
            if white_space(c) || c == ';' || c == '#' || c == '[' || c == '=' || c == ':' {
                IniReadState::Between
            } else {
                IniReadState::Key
            }
        },
        IniReadState::ValueStart => {
            if c == '\t' || (white_space(c) && c != '\n' && c != '\r') || c == '"' || c == '\'' {
                IniReadState::ValueStart
            } else {
                IniReadState::Value
            }
        },
        _ => st,
    }
}

fn read_state_after(c: char, st: IniReadState) -> (r: IniReadState)
    ensures
        r == state_after(c, st),
{
    match st {
        IniReadState::Between => {
            if c == ';' || c == '#' {
                IniReadState::Comment
            } else if c == '[' {
                IniReadState::Section
            } else if c == '=' || c == ':' {
                IniReadState::ValueStart
            } else {
                IniReadState::Between
            }
        },
        IniReadState::Comment => if c == '\n' {
            IniReadState::Between
        } else {
            IniReadState::Comment
        },
        IniReadState::Section => if c == ']' {
            IniReadState::Between
        } else {
            IniReadState::Section
        },
        IniReadState::Key => if c == '=' || c == ':' {
            IniReadState::ValueStart
        } else {
            IniReadState::Key
        },
        IniReadState::ValueStart => if c == '"' || c == '\'' {
            IniReadState::Quoted(c)
        } else {
            IniReadState::ValueStart
        },
        IniReadState::Quoted(q) => if c == q {
            IniReadState::Value
        } else {
            IniReadState::Quoted(q)
        },
        IniReadState::Value => if c == '\n' || c == '\r' {
            IniReadState::Between
        } else {
            IniReadState::Value
        },
    }
}

/// Whether the INI reader, reading `text`, would come to an escape of a
/// surrogate code: the text is followed character by character through the
/// reader's states.
fn find_surrogate_escape(text: &str) -> (r: bool)
    ensures
        r == has_surrogate_escape(text@),
{
    broadcast use axiom_spec_iter, next_postcondition;

    let mut seen: Vec<char> = Vec::new();
    for c in it: text.chars()
        invariant
            seen@ == it.seq().take(it.index() as int),
    {
        seen.push(c);
    }
    assert(seen@ =~= text@);
    let n = seen.len();
    let mut i: usize = 0;
    let mut st = IniReadState::Between;
    while i < n
        invariant
            i <= n,
            seen@ == text@,
            n == seen@.len(),
            surrogate_escape_from(text@, i as int, st) == has_surrogate_escape(text@),
        decreases n - i,
    {
        let c = seen[i];
        let cur = read_state_for(c, st);
        let escapes = match cur {
            IniReadState::Section | IniReadState::Key | IniReadState::Quoted(_) | IniReadState::Value => true,
            _ => false,
        };
        if escapes && c == '\\' {
            if n - i < 2 {
                return false;
            } else if seen[i + 1] == 'x' {
                if n - i > 3 {
                    let a = seen[i + 2];
                    let d = seen[i + 3];
                    if (a == 'd' || a == 'D') && (('8' <= d && d <= '9') || ('a' <= d && d <= 'f') || ('A' <= d
                        && d <= 'F')) {
                        assert(is_surrogate_escape_at(text@, i as int));
                        return true;
                    }
                }
                assert(!is_surrogate_escape_at(text@, i as int));
                if n - i < 6 {
                    return false;
                }
                i = i + 6;
            } else {
                i = i + 2;
            }
            st = cur;
        } else {
            st = read_state_after(c, cur);
            i = i + 1;
        }
    }
    false
}

/// The key of the client id.
pub open spec fn client_id_key() -> Seq<char> {
    "client_id"@
}

/// The key of the client secret.
pub open spec fn client_secret_key() -> Seq<char> {
    "client_secret"@
}

/// The value under `key` in `section`, or the empty text where it has none.
pub open spec fn value_or_empty(section: Map<Seq<char>, Seq<char>>, key: Seq<char>) -> Seq<char> {
    if section.contains_key(key) {
        section[key]
    } else {
        Seq::empty()
    }
}

/// The general section of a configuration written from the two lines that
/// an operator entered.
pub open spec fn entered_section(id_line: Seq<char>, secret_line: Seq<char>) -> Map<Seq<char>, Seq<char>> {
    Map::empty().insert(client_id_key(), trimmed(id_line)).insert(client_secret_key(), trimmed(secret_line))
}

/// The client credentials: an id, sent as part of the message, and a secret,
/// used as the key.
#[derive(Debug, PartialEq, Eq)]
pub struct Config {
    pub client_id: String,
    pub client_secret: String,
}

/// Credentials read from a configuration, with a note of each key that the
/// configuration lacked (its value is then empty).
#[derive(Debug, PartialEq, Eq)]
pub struct LoadedConfig {
    pub config: Config,
    pub missing_client_id: bool,
    pub missing_client_secret: bool,
}

impl LoadedConfig {
    /// These credentials are the ones that the general section `section`
    /// gives: each value present, else empty and noted as missing.
    pub open spec fn is_read_from(&self, section: Map<Seq<char>, Seq<char>>) -> bool {
        &&& self.config.client_id@ == value_or_empty(section, client_id_key())
        &&& self.config.client_secret@ == value_or_empty(section, client_secret_key())
        &&& self.missing_client_id == !section.contains_key(client_id_key())
        &&& self.missing_client_secret == !section.contains_key(client_secret_key())
    }
}

impl Config {
    /// Reads the credentials from the general section of `ini`. A missing
    /// key is no failure: its value is empty and it is noted as missing.
    pub fn from_ini(ini: &Ini) -> (r: LoadedConfig)
        ensures
            r.is_read_from(general_section_of(*ini)),
    {
        let (client_id, missing_client_id) = match ini_get_general(ini, "client_id") {
            Some(v) => (v, false),
            None => (String::new(), true),
        };
        let (client_secret, missing_client_secret) = match ini_get_general(ini, "client_secret") {
            Some(v) => (v, false),
            None => (String::new(), true),
        };
        LoadedConfig {
            config: Config { client_id, client_secret },
            missing_client_id,
            missing_client_secret,
        }
    }

    /// Reads the credentials from the text of a configuration file. `None`
    /// where the text is not a well-formed INI document, or holds the escape
    /// of a surrogate code, which names no character: the configuration must
    /// then be created afresh. The values read are trimmed.
    pub fn parse_config(text: &str) -> (r: Option<LoadedConfig>)
        ensures
            r is None <==> (has_surrogate_escape(text@) || parsed_general_section(text@) is None),
            r matches Some(l) ==> l.is_read_from(parsed_general_section(text@)->Some_0),
            r matches Some(l) ==> trimmed(l.config.client_id@) == l.config.client_id@,
            r matches Some(l) ==> trimmed(l.config.client_secret@) == l.config.client_secret@,
    {
        if find_surrogate_escape(text) {
            return None;
        }
        assert(trimmed(Seq::<char>::empty()) == Seq::<char>::empty());
        match ini_from_text(text) {
            Some(ini) => Some(Config::from_ini(&ini)),
            None => None,
        }
    }

    /// The configuration document written from the two lines that an
    /// operator entered for the client id and the client secret, each
    /// trimmed of surrounding whitespace.
    pub fn create_config(id_line: &str, secret_line: &str) -> (r: Ini)
        ensures
            general_section_of(r) == entered_section(id_line@, secret_line@),
            section_names_of(r) == set![None::<Seq<char>>],
    {
        let client_id = trim_text(id_line);
        let client_secret = trim_text(secret_line);
        let mut ini = ini_empty();
        ini_set_general(&mut ini, "client_id", client_id.as_str());
        ini_set_general(&mut ini, "client_secret", client_secret.as_str());
        assert(general_section_of(ini) =~= entered_section(id_line@, secret_line@));
        assert(section_names_of(ini) =~= set![None::<Seq<char>>]);
        ini
    }
}

/// A configuration created from the lines that an operator entered reads
/// back as those lines trimmed, with neither key missing.
pub proof fn lemma_entered_config_reads_back(id_line: Seq<char>, secret_line: Seq<char>, l: LoadedConfig)
    requires
        l.is_read_from(entered_section(id_line, secret_line)),
    ensures
        l.config.client_id@ == trimmed(id_line),
        l.config.client_secret@ == trimmed(secret_line),
        !l.missing_client_id,
        !l.missing_client_secret,
{
    reveal_strlit("client_id");
    reveal_strlit("client_secret");
    assert(client_id_key() != client_secret_key()) by {
        assert(client_id_key().len() != client_secret_key().len());
    }
}

} // verus!
