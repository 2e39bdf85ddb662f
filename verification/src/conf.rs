//! Configuration loading: the recognized options, the validation of a parsed
//! configuration table, and the boundary to the TOML parser. The parsed
//! document is modelled by [`ConfValue`], a plain tagged value the contracts
//! can inspect; the external parser is called behind one trusted wrapper.

use vstd::prelude::*;

verus! {

/// An item inside a configuration array or nested table, as far as
/// validation reads it: a scalar, or the mere fact that something deeper
/// stands there.
#[derive(Debug, Clone, PartialEq)]
pub enum ConfScalar {
    SStr(String),
    SInt(i64),
    SBool(bool),
    SOther,
}

/// A value of the configuration table, as far as validation reads it:
/// scalars, arrays of items, nested tables of items; floats and dates only
/// by their presence.
#[derive(Debug, Clone, PartialEq)]
pub enum ConfValue {
    VStr(String),
    VInt(i64),
    VBool(bool),
    VArr(Vec<ConfScalar>),
    VTab(Vec<(String, ConfScalar)>),
    VOther,
}

/// A parsed configuration document: the root table, or whatever else the
/// parser returned in its place.
#[derive(Debug, Clone, PartialEq)]
pub enum ConfDoc {
    DTab(Vec<(String, ConfValue)>),
    DOther,
}

/// The recognized options, with the defaults the loader starts from.
pub struct FormatOpts {
    pub wrap: WrapOption,
    pub number: bool,
    pub end_of_line: EndOfLine,
    pub validate: bool,
    pub exclude: Vec<String>,
    pub plugin: Vec<(String, String)>,
    pub extensions: Option<Vec<String>>,
    pub codeformatters: Option<Vec<String>>,
}

/// How paragraphs are wrapped.
#[derive(Clone, Copy, Debug, PartialEq, Eq, Structural)]
pub enum WrapOption {
    Keep,
    No,
    Length(u32),
}

/// Which line terminator the output carries.
#[derive(Clone, Copy, Debug, PartialEq, Eq, Structural)]
pub enum EndOfLine {
    Lf,
    CrLf,
    Keep,
}

/// A configuration the loader refused, with one line saying why.
#[derive(Debug)]
pub struct ConfigError {
    text: String,
}

impl ConfigError {
    /// Wraps one diagnostic line.
    pub fn new(message: String) -> (r: ConfigError)
        ensures
            r.msg() == message@,
    {
        ConfigError { text: message }
    }

    /// The diagnostic line.
    pub fn message(&self) -> (r: &str)
        ensures
            r@ == self.msg(),
    {
        self.text.as_str()
    }

    /// The diagnostic line as what this error is.
    pub closed spec fn msg(&self) -> Seq<char> {
        self.text@
    }
}

impl FormatOpts {
    /// What holds of the loader's starting point.
    pub open spec fn is_default(&self) -> bool {
        &&& self.wrap == WrapOption::Keep
        &&& self.number == false
        &&& self.end_of_line == EndOfLine::Lf
        &&& self.validate == true
        &&& self.exclude@.len() == 0
        &&& self.plugin@.len() == 0
        &&& self.extensions is None
        &&& self.codeformatters is None
    }
}

impl Default for FormatOpts {
    /// The defaults: keep wrapping, line-feed endings, validation on,
    /// nothing excluded, no plugins.
    fn default() -> (r: FormatOpts)
        ensures
            r.is_default(),
    {
        FormatOpts {
            wrap: WrapOption::Keep,
            number: false,
            end_of_line: EndOfLine::Lf,
            validate: true,
            exclude: Vec::new(),
            plugin: Vec::new(),
            extensions: Option::None,
            codeformatters: Option::None,
        }
    }
}

/// A key the configuration schema knows.
pub open spec fn is_valid_key(k: Seq<char>) -> bool {
    ||| k == "wrap"@
    ||| k == "number"@
    ||| k == "end_of_line"@
    ||| k == "validate"@
    ||| k == "exclude"@
    ||| k == "plugin"@
    ||| k == "extensions"@
    ||| k == "codeformatters"@
}

/// A sound `wrap` value: an integer above one, or `keep` or `no`.
pub open spec fn wrap_ok(v: ConfValue) -> bool {
    match v {
        ConfValue::VInt(i) => i > 1,
        ConfValue::VStr(s) => s@ == "keep"@ || s@ == "no"@,
        _ => false,
    }
}

/// A sound `end_of_line` value: `crlf`, `lf` or `keep`.
pub open spec fn eol_ok(v: ConfValue) -> bool {
    match v {
        ConfValue::VStr(s) => s@ == "crlf"@ || s@ == "lf"@ || s@ == "keep"@,
        _ => false,
    }
}

/// An array of strings only.
pub open spec fn all_strings(items: Seq<ConfScalar>) -> bool {
    forall|i: int| 0 <= i < items.len() ==> (#[trigger] items[i]) matches ConfScalar::SStr(_)
}

/// What a table must satisfy, clause by clause, for validation to accept it.
pub open spec fn table_ok(t: Seq<(String, ConfValue)>) -> bool {
    &&& (forall|i: int| 0 <= i < t.len() ==> is_valid_key((#[trigger] t[i]).0@))
    &&& (forall|i: int|
        0 <= i < t.len() && (#[trigger] t[i]).0@ == "wrap"@ ==> wrap_ok(t[i].1))
    &&& (forall|i: int|
        0 <= i < t.len() && (#[trigger] t[i]).0@ == "end_of_line"@ ==> eol_ok(t[i].1))
    &&& (forall|i: int|
        0 <= i < t.len() && (#[trigger] t[i]).0@ == "validate"@ ==> t[i].1 matches
            ConfValue::VBool(_))
    &&& (forall|i: int|
        0 <= i < t.len() && (#[trigger] t[i]).0@ == "number"@ ==> t[i].1 matches
            ConfValue::VBool(_))
    &&& (forall|i: int|
        0 <= i < t.len() && (#[trigger] t[i]).0@ == "exclude"@ ==> (t[i].1 matches
            ConfValue::VArr(items) && all_strings(items@)))
    &&& (forall|i: int|
        0 <= i < t.len() && (#[trigger] t[i]).0@ == "plugin"@ ==> t[i].1 matches
            ConfValue::VTab(_))
    &&& (forall|i: int|
        0 <= i < t.len() && (#[trigger] t[i]).0@ == "extensions"@ ==> (t[i].1 matches
            ConfValue::VArr(items) && all_strings(items@)))
    &&& (forall|i: int|
        0 <= i < t.len() && (#[trigger] t[i]).0@ == "codeformatters"@ ==> (t[i].1 matches
            ConfValue::VArr(items) && all_strings(items@)))
}

/// What validation accepts: a table all of whose entries are sound.
pub open spec fn config_ok(config: ConfDoc) -> bool {
    match config {
        ConfDoc::DTab(t) => table_ok(t@),
        _ => false,
    }
}

/// The diagnostic line each violation class carries: the message names an
/// actual violation of the entry.
pub open spec fn entry_err(e: (String, ConfValue), path: Seq<char>, msg: Seq<char>) -> bool {
    ||| (!is_valid_key(e.0@) && msg == "Invalid key '"@ + e.0@ + "' found in "@ + path + "."@)
    ||| (e.0@ == "wrap"@ && !wrap_ok(e.1) && msg == "Invalid 'wrap' value in "@ + path + "."@)
    ||| (e.0@ == "end_of_line"@ && !eol_ok(e.1) && msg == "Invalid 'end_of_line' value in "@
        + path + "."@)
    ||| (e.0@ == "validate"@ && !(e.1 matches ConfValue::VBool(_)) && msg
        == "Invalid 'validate' value in "@ + path + "."@)
    ||| (e.0@ == "number"@ && !(e.1 matches ConfValue::VBool(_)) && msg
        == "Invalid 'number' value in "@ + path + "."@)
    ||| (e.0@ == "exclude"@ && (e.1 matches ConfValue::VArr(items) && !all_strings(items@))
        && msg == "All items in 'exclude' must be strings in "@ + path + "."@)
    ||| (e.0@ == "exclude"@ && !(e.1 matches ConfValue::VArr(_)) && msg
        == "The 'exclude' field must be an array in "@ + path + "."@)
    ||| (e.0@ == "plugin"@ && !(e.1 matches ConfValue::VTab(_)) && msg
        == "The 'plugin' field must be a map in "@ + path + "."@)
    ||| (e.0@ == "extensions"@ && (e.1 matches ConfValue::VArr(items) && !all_strings(items@))
        && msg == "All items in 'extensions' must be strings in "@ + path + "."@)
    ||| (e.0@ == "extensions"@ && !(e.1 matches ConfValue::VArr(_)) && msg
        == "The 'extensions' field must be an array in "@ + path + "."@)
    ||| (e.0@ == "codeformatters"@ && (e.1 matches ConfValue::VArr(items) && !all_strings(
        items@,
    )) && msg == "All items in 'codeformatters' must be strings in "@ + path + "."@)
    ||| (e.0@ == "codeformatters"@ && !(e.1 matches ConfValue::VArr(_)) && msg
        == "The 'codeformatters' field must be an array in "@ + path + "."@)
}

/// A refused configuration's diagnostic names a real violation: of the root
/// not being a table, or of some entry, in that entry's class.
pub open spec fn config_err(config: ConfDoc, path: Seq<char>, msg: Seq<char>) -> bool {
    match config {
        ConfDoc::DTab(t) => exists|i: int|
            0 <= i < t@.len() && entry_err(#[trigger] t@[i], path, msg),
        _ => msg == "Config at "@ + path + " is not valid TOML table."@,
    }
}

/// Checks a parsed configuration against the schema: every key must be
/// known, and every value well-formed for its key. Returns the first
/// violation as an error whose line names the key class, as the tests of the
/// loader expect; accepts exactly the configurations [`config_ok`] admits.
pub fn validate_config(config: &ConfDoc, conf_path: &str) -> (r: Result<(), ConfigError>)
    ensures
        r is Ok <==> config_ok(*config),
        r matches Err(e) ==> config_err(*config, conf_path@, e.msg()),
{
    proof {
        reveal_strlit("wrap");
        reveal_strlit("number");
        reveal_strlit("end_of_line");
        reveal_strlit("validate");
        reveal_strlit("exclude");
        reveal_strlit("plugin");
        reveal_strlit("extensions");
        reveal_strlit("codeformatters");
    }
    let t: &Vec<(String, ConfValue)> = match config {
        ConfDoc::DTab(t) => t,
        _ => {
            proof {
                assert(!config_ok(*config));
            }
            let e = err_line("Config at ", conf_path, " is not valid TOML table.");
            proof {
                assert(config_err(*config, conf_path@, e.msg()));
            }
            return Result::Err(e);
        },
    };
    proof {
        assert(config_ok(*config) == table_ok(t@));
    }
    let mut i: usize = 0;
    while i < t.len()
        invariant
            *config matches ConfDoc::DTab(tv) && tv == *t,
            config_ok(*config) == table_ok(t@),
            i <= t@.len(),
            forall|j: int| 0 <= j < i ==> is_valid_key((#[trigger] t@[j]).0@),
        decreases t@.len() - i,
    {
        if !key_known(&t[i].0) {
            proof {
                assert(table_ok(t@) ==> is_valid_key(t@[i as int].0@));
                assert(!table_ok(t@));
            }
            let mut m = String::from_str("Invalid key '");
            m.append(t[i].0.as_str());
            m.append("' found in ");
            m.append(conf_path);
            m.append(".");
            let e = ConfigError::new(m);
            proof {
                assert(entry_err(t@[i as int], conf_path@, e.msg()));
                assert(config_err(*config, conf_path@, e.msg()));
            }
            return Result::Err(e);
        }
        i = i + 1;
    }
    let mut i: usize = 0;
    while i < t.len()
        invariant
            *config matches ConfDoc::DTab(tv) && tv == *t,
            config_ok(*config) == table_ok(t@),
            i <= t@.len(),
            forall|j: int| 0 <= j < t@.len() ==> is_valid_key((#[trigger] t@[j]).0@),
            forall|j: int| 0 <= j < i ==> entry_ok(#[trigger] t@[j]),
        decreases t@.len() - i,
    {
        let key = &t[i].0;
        let val = &t[i].1;
        if str_eq(key.as_str(), "wrap") {
            let ok = match val {
                ConfValue::VInt(n) => *n > 1,
                ConfValue::VStr(s) => str_eq(s.as_str(), "keep") || str_eq(s.as_str(), "no"),
                _ => false,
            };
            proof {
                assert(ok == wrap_ok(t@[i as int].1));
            }
            if !ok {
                proof {
                    assert(table_ok(t@) ==> entry_ok_at(t@, i as int));
                    assert(!table_ok(t@));
                }
                let e = err_line("Invalid 'wrap' value in ", conf_path, ".");
                proof {
                    assert(entry_err(t@[i as int], conf_path@, e.msg()));
                    assert(config_err(*config, conf_path@, e.msg()));
                }
                return Result::Err(e);
            }
        } else if str_eq(key.as_str(), "end_of_line") {
            let ok = match val {
                ConfValue::VStr(s) => str_eq(s.as_str(), "crlf") || str_eq(s.as_str(), "lf")
                    || str_eq(s.as_str(), "keep"),
                _ => false,
            };
            proof {
                assert(ok == eol_ok(t@[i as int].1));
            }
            if !ok {
                proof {
                    assert(table_ok(t@) ==> entry_ok_at(t@, i as int));
                    assert(!table_ok(t@));
                }
                let e = err_line("Invalid 'end_of_line' value in ", conf_path, ".");
                proof {
                    assert(entry_err(t@[i as int], conf_path@, e.msg()));
                    assert(config_err(*config, conf_path@, e.msg()));
                }
                return Result::Err(e);
            }
        } else if str_eq(key.as_str(), "validate") {
            if !matches!(val, ConfValue::VBool(_)) {
                proof {
                    assert(table_ok(t@) ==> entry_ok_at(t@, i as int));
                    assert(!table_ok(t@));
                }
                let e = err_line("Invalid 'validate' value in ", conf_path, ".");
                proof {
                    assert(entry_err(t@[i as int], conf_path@, e.msg()));
                    assert(config_err(*config, conf_path@, e.msg()));
                }
                return Result::Err(e);
            }
        } else if str_eq(key.as_str(), "number") {
            if !matches!(val, ConfValue::VBool(_)) {
                proof {
                    assert(table_ok(t@) ==> entry_ok_at(t@, i as int));
                    assert(!table_ok(t@));
                }
                let e = err_line("Invalid 'number' value in ", conf_path, ".");
                proof {
                    assert(entry_err(t@[i as int], conf_path@, e.msg()));
                    assert(config_err(*config, conf_path@, e.msg()));
                }
                return Result::Err(e);
            }
        } else if str_eq(key.as_str(), "exclude") {
            match val {
                ConfValue::VArr(items) => {
                    if !array_of_strings(items) {
                        proof {
                            assert(table_ok(t@) ==> entry_ok_at(t@, i as int));
                            assert(!table_ok(t@));
                        }
                        let e = err_line("All items in 'exclude' must be strings in ", conf_path, ".");
                        proof {
                            assert(entry_err(t@[i as int], conf_path@, e.msg()));
                            assert(config_err(*config, conf_path@, e.msg()));
                        }
                        return Result::Err(e);
                    }
                },
                _ => {
                    proof {
                        assert(table_ok(t@) ==> entry_ok_at(t@, i as int));
                        assert(!table_ok(t@));
                    }
                    let e = err_line("The 'exclude' field must be an array in ", conf_path, ".");
                    proof {
                        assert(entry_err(t@[i as int], conf_path@, e.msg()));
                        assert(config_err(*config, conf_path@, e.msg()));
                    }
                    return Result::Err(e);
                },
            }
        } else if str_eq(key.as_str(), "plugin") {
            if !matches!(val, ConfValue::VTab(_)) {
                proof {
                    assert(table_ok(t@) ==> entry_ok_at(t@, i as int));
                    assert(!table_ok(t@));
                }
                let e = err_line("The 'plugin' field must be a map in ", conf_path, ".");
                proof {
                    assert(entry_err(t@[i as int], conf_path@, e.msg()));
                    assert(config_err(*config, conf_path@, e.msg()));
                }
                return Result::Err(e);
            }
        } else if str_eq(key.as_str(), "extensions") {
            match val {
                ConfValue::VArr(items) => {
                    if !array_of_strings(items) {
                        proof {
                            assert(table_ok(t@) ==> entry_ok_at(t@, i as int));
                            assert(!table_ok(t@));
                        }
                        let e = err_line( "All items in 'extensions' must be strings in ", conf_path, ".", );
                        proof {
                            assert(entry_err(t@[i as int], conf_path@, e.msg()));
                            assert(config_err(*config, conf_path@, e.msg()));
                        }
                        return Result::Err(e);
                    }
                },
                _ => {
                    proof {
                        assert(table_ok(t@) ==> entry_ok_at(t@, i as int));
                        assert(!table_ok(t@));
                    }
                    let e = err_line("The 'extensions' field must be an array in ", conf_path, ".");
                    proof {
                        assert(entry_err(t@[i as int], conf_path@, e.msg()));
                        assert(config_err(*config, conf_path@, e.msg()));
                    }
                    return Result::Err(e);
                },
            }
        } else if str_eq(key.as_str(), "codeformatters") {
            match val {
                ConfValue::VArr(items) => {
                    if !array_of_strings(items) {
                        proof {
                            assert(table_ok(t@) ==> entry_ok_at(t@, i as int));
                            assert(!table_ok(t@));
                        }
                        let e = err_line( "All items in 'codeformatters' must be strings in ", conf_path, ".", );
                        proof {
                            assert(entry_err(t@[i as int], conf_path@, e.msg()));
                            assert(config_err(*config, conf_path@, e.msg()));
                        }
                        return Result::Err(e);
                    }
                },
                _ => {
                    proof {
                        assert(table_ok(t@) ==> entry_ok_at(t@, i as int));
                        assert(!table_ok(t@));
                    }
                    let e = err_line( "The 'codeformatters' field must be an array in ", conf_path, ".", );
                    proof {
                        assert(entry_err(t@[i as int], conf_path@, e.msg()));
                        assert(config_err(*config, conf_path@, e.msg()));
                    }
                    return Result::Err(e);
                },
            }
        }
        proof {
            reveal_strlit("wrap");
            reveal_strlit("number");
            reveal_strlit("end_of_line");
            reveal_strlit("validate");
            reveal_strlit("exclude");
            reveal_strlit("plugin");
            reveal_strlit("extensions");
            reveal_strlit("codeformatters");
            assert("wrap"@.len() == 4);
            assert("number"@.len() == 6);
            assert("end_of_line"@.len() == 11);
            assert("validate"@.len() == 8);
            assert("exclude"@.len() == 7);
            assert("plugin"@.len() == 6);
            assert("extensions"@.len() == 10);
            assert("codeformatters"@.len() == 14);
            assert("number"@[0] == 'n');
            assert("plugin"@[0] == 'p');
            let e = t@[i as int];
            assert(is_valid_key(e.0@));
            assert(e.0@ == "wrap"@ ==> wrap_ok(e.1));
            assert(e.0@ == "end_of_line"@ ==> eol_ok(e.1));
            assert(e.0@ == "validate"@ ==> e.1 matches ConfValue::VBool(_));
            assert(e.0@ == "number"@ ==> e.1 matches ConfValue::VBool(_));
            assert(e.0@ == "exclude"@ ==> (e.1 matches ConfValue::VArr(items) && all_strings(
                items@,
            )));
            assert(e.0@ == "plugin"@ ==> e.1 matches ConfValue::VTab(_));
            assert(e.0@ == "extensions"@ ==> (e.1 matches ConfValue::VArr(items) && all_strings(
                items@,
            )));
            assert(e.0@ == "codeformatters"@ ==> (e.1 matches ConfValue::VArr(items)
                && all_strings(items@)));
            assert(entry_ok(t@[i as int]));
        }
        i = i + 1;
    }
    proof {
        assert(table_ok(t@));
    }
    Result::Ok(())
}

/// The entry at one index sound for its key — phrased over the table so the
/// quantifiers of [`table_ok`] apply to it directly.
pub open spec fn entry_ok_at(t: Seq<(String, ConfValue)>, i: int) -> bool {
    entry_ok(t[i])
}

/// One table entry sound for its key.
pub open spec fn entry_ok(e: (String, ConfValue)) -> bool {
    &&& is_valid_key(e.0@)
    &&& (e.0@ == "wrap"@ ==> wrap_ok(e.1))
    &&& (e.0@ == "end_of_line"@ ==> eol_ok(e.1))
    &&& (e.0@ == "validate"@ ==> e.1 matches ConfValue::VBool(_))
    &&& (e.0@ == "number"@ ==> e.1 matches ConfValue::VBool(_))
    &&& (e.0@ == "exclude"@ ==> (e.1 matches ConfValue::VArr(items) && all_strings(items@)))
    &&& (e.0@ == "plugin"@ ==> e.1 matches ConfValue::VTab(_))
    &&& (e.0@ == "extensions"@ ==> (e.1 matches ConfValue::VArr(items) && all_strings(items@)))
    &&& (e.0@ == "codeformatters"@ ==> (e.1 matches ConfValue::VArr(items) && all_strings(
        items@,
    )))
}

/// One diagnostic line built from a prefix, the configuration path and a tail.
fn err_line(prefix: &str, conf_path: &str, tail: &str) -> (r: ConfigError)
    ensures
        r.msg() == prefix@ + conf_path@ + tail@,
{
    let mut m = String::from_str(prefix);
    m.append(conf_path);
    m.append(tail);
    ConfigError::new(m)
}

/// String equality by view.
fn str_eq(a: &str, b: &str) -> (r: bool)
    ensures
        r == (a@ == b@),
{
    let sa = String::from_str(a);
    let sb = String::from_str(b);
    sa == sb
}

/// Whether a key is one the schema knows.
fn key_known(k: &String) -> (r: bool)
    ensures
        r == is_valid_key(k@),
{
    str_eq(k.as_str(), "wrap") || str_eq(k.as_str(), "number") || str_eq(k.as_str(), "end_of_line")
        || str_eq(k.as_str(), "validate") || str_eq(k.as_str(), "exclude") || str_eq(
        k.as_str(),
        "plugin",
    ) || str_eq(k.as_str(), "extensions") || str_eq(k.as_str(), "codeformatters")
}

/// Whether every item of an array is a string.
fn array_of_strings(items: &Vec<ConfScalar>) -> (r: bool)
    ensures
        r == all_strings(items@),
{
    let mut i: usize = 0;
    while i < items.len()
        invariant
            i <= items@.len(),
            forall|j: int| 0 <= j < i ==> (#[trigger] items@[j]) matches ConfScalar::SStr(_),
        decreases items@.len() - i,
    {
        if !matches!(&items[i], ConfScalar::SStr(_)) {
            return false;
        }
        i = i + 1;
    }
    true
}

/// What the TOML parser makes of a text: a configuration value, or nothing
/// when the text is not well-formed TOML. The result depends on the text
/// alone.
pub uninterp spec fn toml_parse_of(s: Seq<char>) -> Option<ConfDoc>;

#[verifier::external_type_specification]
#[verifier::external_body]
pub struct ExTomlValue(toml::Value);

/// Relies on `toml::from_str::<toml::Value>`: parses TOML text, giving the
/// document's root value on success and an error for text that is not valid
/// TOML; the outcome is a function of the text alone, named by
/// [`toml_parse_of`]. The parsed value is moved field by field into
/// [`ConfValue`]; floats and dates, which validation only tests for their
/// kind, come through as [`ConfValue::VOther`].
#[verifier::external_body]
fn parse_toml(text: &str) -> (r: Result<ConfDoc, String>)
    ensures
        r matches Ok(v) ==> toml_parse_of(text@) == Option::Some(v),
        r is Err ==> toml_parse_of(text@) is None,
{
    match toml::from_str::<toml::Value>(text) {
        Ok(v) => Ok(conv_doc(v)),
        Err(e) => Err(e.to_string()),
    }
}

/// Moves a parsed TOML document into the library's model of it: the root
/// table with its values, items one level deeper as scalars.
#[verifier::external_body]
fn conv_doc(v: toml::Value) -> ConfDoc {
    match v {
        toml::Value::Table(t) => ConfDoc::DTab(
            t.into_iter().map(|(k, w)| (k, conv_value(w))).collect(),
        ),
        _ => ConfDoc::DOther,
    }
}

/// Moves one value of the root table into the library's model of it.
#[verifier::external_body]
fn conv_value(v: toml::Value) -> ConfValue {
    match v {
        toml::Value::String(s) => ConfValue::VStr(s),
        toml::Value::Integer(i) => ConfValue::VInt(i),
        toml::Value::Boolean(b) => ConfValue::VBool(b),
        toml::Value::Array(a) => ConfValue::VArr(a.into_iter().map(conv_scalar).collect()),
        toml::Value::Table(t) => ConfValue::VTab(
            t.into_iter().map(|(k, w)| (k, conv_scalar(w))).collect(),
        ),
        _ => ConfValue::VOther,
    }
}

/// Moves one nested item into the library's model of it.
#[verifier::external_body]
fn conv_scalar(v: toml::Value) -> ConfScalar {
    match v {
        toml::Value::String(s) => ConfScalar::SStr(s),
        toml::Value::Integer(i) => ConfScalar::SInt(i),
        toml::Value::Boolean(b) => ConfScalar::SBool(b),
        _ => ConfScalar::SOther,
    }
}

/// Loads options from the text of a configuration file: parses it, validates
/// it, and — like the loader this follows — returns the defaults once the
/// file passes; a parse failure or a schema violation is the error.
pub fn load_opts(text: &str, conf_path: &str) -> (r: Result<FormatOpts, ConfigError>)
    ensures
        r matches Ok(o) ==> o.is_default() && (toml_parse_of(text@) matches Option::Some(v)
            && config_ok(v)),
        r is Err ==> (toml_parse_of(text@) is None || (toml_parse_of(text@) matches
            Option::Some(v) && !config_ok(v))),
{
    match parse_toml(text) {
        Result::Ok(v) => {
            match validate_config(&v, conf_path) {
                Result::Ok(_) => Result::Ok(FormatOpts::default()),
                Result::Err(e) => Result::Err(e),
            }
        },
        Result::Err(m) => Result::Err(ConfigError::new(m)),
    }
}

} // verus!
