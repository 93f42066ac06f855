//! The client's configuration: where Portainer is and the API token, read
//! from and written to a TOML file, and overridden from the environment.
use vstd::prelude::*;
use crate::text::{copy_str, str_eq};
use vstd::utf8::{decode_utf8, encode_utf8_decode_utf8, is_char_boundary};
use vstd::string::StringSliceAdditionalSpecFns;

verus! {

/// Configuration of the command-line client.
pub struct Config {
    pub portainer_url: Option<String>,
    pub api_token: Option<String>,
}

/// What a configuration holds.
pub struct ConfigView {
    pub portainer_url: Option<Seq<char>>,
    pub api_token: Option<Seq<char>>,
}

/// An optional string as the specification sees it.
pub open spec fn opt_str(v: Option<String>) -> Option<Seq<char>> {
    match v {
        Some(s) => Some(s@),
        None => None,
    }
}

impl View for Config {
    type V = ConfigView;

    open spec fn view(&self) -> ConfigView {
        ConfigView { portainer_url: opt_str(self.portainer_url), api_token: opt_str(self.api_token) }
    }
}

impl Default for Config {
    fn default() -> (c: Self)
        ensures
            c.portainer_url is None,
            c.api_token is None,
    {
        Config { portainer_url: None, api_token: None }
    }
}

/// Why a configuration file was not read.
#[derive(PartialEq, Eq, Structural, Clone, Copy, Debug)]
pub enum ConfigError {
    /// The file is no TOML document.
    Syntax,
    /// `portainer_url` or `api_token` holds something else than a string.
    InvalidField,
}

// ---------------------------------------------------------------------------
// TOML tables (the `toml` crate)

#[verifier::external_type_specification]
#[verifier::external_body]
#[verifier::reject_recursive_types(K)]
#[verifier::reject_recursive_types(V)]
pub struct ExTomlMap<K, V>(toml::map::Map<K, V>);

#[verifier::external_type_specification]
#[verifier::external_body]
pub struct ExTomlValue(toml::Value);

/// What a TOML table holds, key by key: the text of a string value, and
/// `None` for a value of any other type.
pub uninterp spec fn table_entries(t: toml::Table) -> Map<Seq<char>, Option<Seq<char>>>;

/// The table that `toml::from_str` reads from a document, when it reads one.
pub uninterp spec fn toml_document(text: Seq<char>) -> Option<Map<Seq<char>, Option<Seq<char>>>>;

/// The text that `toml::to_string` writes for a table with these entries
/// when it has at most one (then the order of the map's keys plays no part).
pub uninterp spec fn toml_rendering(entries: Map<Seq<char>, Option<Seq<char>>>) -> Seq<char>;

/// Reads a TOML document with `toml::from_str::<toml::Table>`: a table
/// exactly when the text is a document, and then the table the document
/// stands for.
#[verifier::external_body]
fn parse_table(text: &str) -> (r: Option<toml::Table>)
    ensures
        r is Some == toml_document(text@) is Some,
        r matches Some(t) ==> Some(table_entries(t)) == toml_document(text@),
{
    toml::from_str::<toml::Table>(text).ok()
}

/// Looks a key up with `toml::map::Map::get`: `None` when the key is absent,
/// else the text of a string value or `None` for another value.
#[verifier::external_body]
fn table_field(t: &toml::Table, key: &str) -> (r: Option<Option<String>>)
    ensures
        r is Some == table_entries(*t).contains_key(key@),
        r matches Some(v) ==> table_entries(*t)[key@] == opt_str(v),
{
    match t.get(key) {
        None => None,
        Some(toml::Value::String(s)) => Some(Some(s.clone())),
        Some(_) => Some(None),
    }
}

/// The entries of an empty table.
pub open spec fn no_entries() -> Map<Seq<char>, Option<Seq<char>>> {
    Map::empty()
}

/// An empty table (`toml::map::Map::new`).
#[verifier::external_body]
fn table_new() -> (table: toml::Table)
    ensures
        table_entries(table) == no_entries(),
{
    toml::Table::new()
}

/// Sets a key to a string value (`toml::map::Map::insert`).
#[verifier::external_body]
fn table_insert_text(t: &mut toml::Table, key: String, value: String)
    ensures
        table_entries(*final(t)) == table_entries(*old(t)).insert(key@, Some(value@)),
{
    t.insert(key, toml::Value::String(value));
}

/// Writes a table of string values as a TOML document (`toml::to_string`).
/// The text is the document of that table: reading it back with
/// `toml::from_str` gives the same keys and strings.  For a table of at
/// most one entry the text depends on the entries alone; for a larger one
/// the order of its keys is the map's, which is left unsaid, as is the
/// quoting.  The serializer fails on no table of string values, so the
/// fallback to an empty text is never taken.
#[verifier::external_body]
fn render_table(t: &toml::Table) -> (s: String)
    requires
        forall|k: Seq<char>| #[trigger] table_entries(*t).contains_key(k) ==> table_entries(*t)[k] is Some,
    ensures
        table_entries(*t).dom().finite() && table_entries(*t).dom().len() <= 1 ==> s@ == toml_rendering(
            table_entries(*t),
        ),
        toml_document(s@) == Some(table_entries(*t)),
{
    toml::to_string(t).unwrap_or_default()
}

/// The number of keys of a table (`toml::map::Map::len`); a table holds
/// finitely many.
#[verifier::external_body]
fn table_len(t: &toml::Table) -> (r: usize)
    ensures
        (r as nat, true) == (table_entries(*t).dom().len(), table_entries(*t).dom().finite()),
{
    t.len()
}

// ---------------------------------------------------------------------------
// The configuration file

/// The value of a field of the file: absent, a string, or something else.
pub open spec fn field_of(m: Map<Seq<char>, Option<Seq<char>>>, key: Seq<char>) -> Option<Option<Seq<char>>> {
    if m.contains_key(key) {
        Some(m[key])
    } else {
        None
    }
}

/// The configuration that a file holds: no document is a `Syntax` error; a
/// field that holds no string is an `InvalidField` error; an absent field is
/// unset; other keys are ignored.
pub open spec fn decode_config(doc: Option<Map<Seq<char>, Option<Seq<char>>>>) -> Result<ConfigView, ConfigError> {
    match doc {
        None => Err(ConfigError::Syntax),
        Some(m) => {
            let url = field_of(m, "portainer_url"@);
            let token = field_of(m, "api_token"@);
            if url == Some(None::<Seq<char>>) || token == Some(None::<Seq<char>>) {
                Err(ConfigError::InvalidField)
            } else {
                Ok(
                    ConfigView {
                        portainer_url: match url {
                            Some(v) => v,
                            None => None,
                        },
                        api_token: match token {
                            Some(v) => v,
                            None => None,
                        },
                    },
                )
            }
        },
    }
}

/// The table that a configuration is written as: one string per field set.
pub open spec fn config_entries(c: ConfigView) -> Map<Seq<char>, Option<Seq<char>>> {
    let m0 = Map::<Seq<char>, Option<Seq<char>>>::empty();
    let m1 = match c.portainer_url {
        Some(u) => m0.insert("portainer_url"@, Some(u)),
        None => m0,
    };
    match c.api_token {
        Some(t) => m1.insert("api_token"@, Some(t)),
        None => m1,
    }
}

/// Reads a configuration from the text of its file.
pub fn config_from_toml(text: &str) -> (r: Result<Config, ConfigError>)
    ensures
        match decode_config(toml_document(text@)) {
            Ok(c) => r matches Ok(x) && x@ == c,
            Err(e) => r == Err::<Config, ConfigError>(e),
        },
{
    let t = match parse_table(text) {
        Some(t) => t,
        None => {
            return Err(ConfigError::Syntax);
        },
    };
    let url = table_field(&t, "portainer_url");
    let token = table_field(&t, "api_token");
    match (url, token) {
        (Some(None), _) => Err(ConfigError::InvalidField),
        (_, Some(None)) => Err(ConfigError::InvalidField),
        (u, k) => {
            let portainer_url = match u {
                Some(v) => v,
                None => None,
            };
            let api_token = match k {
                Some(v) => v,
                None => None,
            };
            Ok(Config { portainer_url, api_token })
        },
    }
}

/// The line that `toml::to_string` writes for one field of the file: the
/// rendering of a table holding that field alone (nothing for an unset
/// field).
pub open spec fn field_text(key: Seq<char>, v: Option<Seq<char>>) -> Seq<char> {
    match v {
        Some(x) => toml_rendering(Map::<Seq<char>, Option<Seq<char>>>::empty().insert(key, Some(x))),
        None => Seq::empty(),
    }
}

/// The file text of a configuration with its fields in their order:
/// `portainer_url`, then `api_token`.
pub open spec fn ordered_text(c: ConfigView) -> Seq<char> {
    field_text("portainer_url"@, c.portainer_url) + field_text("api_token"@, c.api_token)
}

/// Appends the line of one field.
fn append_field(text: &mut String, key: &str, v: &Option<String>)
    ensures
        final(text)@ == old(text)@ + field_text(key@, opt_str(*v)),
{
    match v {
        Some(x) => {
            let mut t = table_new();
            table_insert_text(&mut t, copy_str(key), copy_str(x.as_str()));
            proof {
                let m = Map::<Seq<char>, Option<Seq<char>>>::empty().insert(key@, Some(x@));
                assert(table_entries(t) =~= m);
                assert(m.dom() =~= Set::<Seq<char>>::empty().insert(key@));
            }
            let line = render_table(&t);
            text.append(line.as_str());
        },
        None => {
            proof {
                assert(final(text)@ =~= old(text)@ + Seq::<char>::empty());
            }
        },
    }
}

/// Whether a table field holds what a configuration field says: the text
/// when it is set, nothing when it is not.
fn field_matches(t: &toml::Table, key: &str, v: &Option<String>) -> (r: bool)
    ensures
        r == match opt_str(*v) {
            Some(x) => table_entries(*t).contains_key(key@) && table_entries(*t)[key@] == Some(x),
            None => !table_entries(*t).contains_key(key@),
        },
{
    match (table_field(t, key), v) {
        (None, None) => true,
        (Some(Some(found)), Some(x)) => str_eq(found.as_str(), x.as_str()),
        _ => false,
    }
}

/// Whether `text` reads back as the table of a configuration.
fn reads_back_as(text: &str, cfg: &Config) -> (r: bool)
    ensures
        r == (toml_document(text@) == Some(config_entries(cfg@))),
{
    let t = match parse_table(text) {
        None => {
            return false;
        },
        Some(t) => t,
    };
    let n = table_len(&t);
    let expected: usize = (if cfg.portainer_url.is_some() { 1 } else { 0 }) + (if cfg.api_token.is_some() { 1 } else { 0 });
    let url_ok = field_matches(&t, "portainer_url", &cfg.portainer_url);
    let token_ok = field_matches(&t, "api_token", &cfg.api_token);
    let ghost e = table_entries(t);
    let ghost c = config_entries(cfg@);
    proof {
        reveal_strlit("portainer_url");
        reveal_strlit("api_token");
        assert("portainer_url"@.len() != "api_token"@.len());
        let d = Set::<Seq<char>>::empty();
        let d1 = if cfg.portainer_url is Some { d.insert("portainer_url"@) } else { d };
        let d2 = if cfg.api_token is Some { d1.insert("api_token"@) } else { d1 };
        assert(c.dom() =~= d2);
        assert(d2.finite());
        assert(d2.len() == expected);
    }
    let r = n == expected && url_ok && token_ok;
    proof {
        if r {
            assert(c.dom().subset_of(e.dom()));
            vstd::set_lib::lemma_subset_equality(c.dom(), e.dom());
            assert(e =~= c);
        }
        if e == c {
            assert(n == expected);
        }
    }
    r
}

/// The text of the file that holds a configuration: the line of
/// `portainer_url`, then the line of `api_token`, each written by
/// `toml::to_string` (the fields in the configuration's order), and a
/// document that reads back as the configuration's table.  Should those
/// lines not read back so, the text is instead what `toml::to_string`
/// writes for the whole table.
pub fn config_to_toml(cfg: &Config) -> (text: String)
    ensures
        toml_document(ordered_text(cfg@)) == Some(config_entries(cfg@)) ==> text@ == ordered_text(cfg@),
        toml_document(text@) == Some(config_entries(cfg@)),
{
    let mut ordered = String::new();
    append_field(&mut ordered, "portainer_url", &cfg.portainer_url);
    append_field(&mut ordered, "api_token", &cfg.api_token);
    proof {
        assert(ordered@ =~= ordered_text(cfg@));
    }
    if reads_back_as(ordered.as_str(), cfg) {
        return ordered;
    }
    let mut t = table_new();
    match &cfg.portainer_url {
        Some(u) => table_insert_text(&mut t, copy_str("portainer_url"), copy_str(u.as_str())),
        None => {},
    }
    match &cfg.api_token {
        Some(k) => table_insert_text(&mut t, copy_str("api_token"), copy_str(k.as_str())),
        None => {},
    }
    proof {
        assert(table_entries(t) =~= config_entries(cfg@));
    }
    render_table(&t)
}

/// Reading back the file written for a configuration gives that
/// configuration.
pub proof fn config_file_round_trip(c: ConfigView)
    ensures
        decode_config(Some(config_entries(c))) == Ok::<ConfigView, ConfigError>(c),
{
    let m = config_entries(c);
    assert("portainer_url"@ != "api_token"@) by {
        reveal_strlit("portainer_url");
        reveal_strlit("api_token");
        assert("portainer_url"@.len() != "api_token"@.len());
    }
    match c.portainer_url {
        Some(u) => assert(field_of(m, "portainer_url"@) == Some(Some(u))),
        None => assert(field_of(m, "portainer_url"@) is None),
    }
    match c.api_token {
        Some(k) => assert(field_of(m, "api_token"@) == Some(Some(k))),
        None => assert(field_of(m, "api_token"@) is None),
    }
}

/// The configuration with the environment's overrides: a non-empty value
/// replaces the field, an empty or absent one leaves it.
pub open spec fn overridden(c: ConfigView, url: Option<Seq<char>>, token: Option<Seq<char>>) -> ConfigView {
    ConfigView {
        portainer_url: match url {
            Some(u) => if u.len() > 0 {
                Some(u)
            } else {
                c.portainer_url
            },
            None => c.portainer_url,
        },
        api_token: match token {
            Some(t) => if t.len() > 0 {
                Some(t)
            } else {
                c.api_token
            },
            None => c.api_token,
        },
    }
}

impl Config {
    /// Applies the values of `PORTCTL_URL` and `PORTCTL_TOKEN` (as read from
    /// the environment, `None` when unset).
    pub fn with_overrides(self, url: Option<String>, token: Option<String>) -> (c: Config)
        ensures
            c@ == overridden(self@, opt_str(url), opt_str(token)),
    {
        let mut c = self;
        match url {
            Some(u) => if u.as_str().unicode_len() > 0 {
                c.portainer_url = Some(u);
            },
            None => {},
        }
        match token {
            Some(t) => if t.as_str().unicode_len() > 0 {
                c.api_token = Some(t);
            },
            None => {},
        }
        c
    }

    /// The configuration that a file with the text `text` holds; an
    /// unreadable file counts as holding none, and the reason is given back
    /// to be reported.
    pub fn from_file_text(text: &str) -> (r: (Config, Option<ConfigError>))
        ensures
            match decode_config(toml_document(text@)) {
                Ok(c) => r.0@ == c && r.1 is None,
                Err(e) => r.0@ == (ConfigView { portainer_url: None, api_token: None }) && r.1 == Some(e),
            },
    {
        match config_from_toml(text) {
            Ok(c) => (c, None),
            Err(e) => (Config { portainer_url: None, api_token: None }, Some(e)),
        }
    }

    /// Sets the Portainer URL and gives the text of the file to save.
    pub fn set_url(&mut self, url: String) -> (text: String)
        ensures
            final(self)@ == (ConfigView { portainer_url: Some(url@), ..old(self)@ }),
            toml_document(ordered_text(final(self)@)) == Some(config_entries(final(self)@)) ==> text@ == ordered_text(
                final(self)@,
            ),
            toml_document(text@) == Some(config_entries(final(self)@)),
    {
        self.portainer_url = Some(url);
        config_to_toml(self)
    }

    /// Sets the API token and gives the text of the file to save.
    pub fn set_token(&mut self, token: String) -> (text: String)
        ensures
            final(self)@ == (ConfigView { api_token: Some(token@), ..old(self)@ }),
            toml_document(ordered_text(final(self)@)) == Some(config_entries(final(self)@)) ==> text@ == ordered_text(
                final(self)@,
            ),
            toml_document(text@) == Some(config_entries(final(self)@)),
    {
        self.api_token = Some(token);
        config_to_toml(self)
    }
}

/// What `config show` prints for a token whose UTF-8 bytes are `b`: `*` for
/// each byte when there are at most eight, else the text of its first four
/// bytes, `****` and the text of its last four.
pub open spec fn masked(b: Seq<u8>) -> Seq<char> {
    if b.len() <= 8 {
        crate::text::repeat('*', b.len())
    } else {
        decode_utf8(b.take(4)) + "****"@ + decode_utf8(b.skip(b.len() - 4))
    }
}

/// Masks an API token for display.  A token longer than eight bytes is cut
/// after its fourth byte and before its fourth-last, which must fall between
/// characters.
pub fn mask_token(t: &str) -> (r: String)
    requires
        t.spec_bytes().len() <= usize::MAX,
        t.spec_bytes().len() <= 8 || (is_char_boundary(t.spec_bytes(), 4) && is_char_boundary(
            t.spec_bytes(),
            t.spec_bytes().len() - 4,
        )),
    ensures
        r@ == masked(t.spec_bytes()),
{
    let n = t.len();
    if n <= 8 {
        let mut r = String::new();
        crate::text::append_repeat(&mut r, '*', n);
        proof {
            assert(r@ =~= masked(t.spec_bytes()));
        }
        r
    } else {
        let (head, _) = t.split_at(4);
        let (_, tail) = t.split_at(n - 4);
        proof {
            encode_utf8_decode_utf8(head@);
            encode_utf8_decode_utf8(tail@);
            assert(head.spec_bytes() =~= t.spec_bytes().take(4));
            assert(tail.spec_bytes() =~= t.spec_bytes().skip(n - 4));
        }
        let mut r = copy_str(head);
        r.append("****");
        r.append(tail);
        proof {
            assert(r@ =~= masked(t.spec_bytes()));
        }
        r
    }
}

} // verus!
