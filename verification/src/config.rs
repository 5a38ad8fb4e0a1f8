//! User-visible configuration: interpreter defaults keyed by file
//! extension, execution confirmation, cache retention, and the directory
//! layout the program works in. Reading and writing the configuration
//! file, and discovering platform directories, are the surrounding
//! program's concern; the key/value logic lives here.

use crate::error::GistCacheError;
use crate::text::{
    dec_string, is_prefix_of, spec_dec, spec_parse_u32, starts_with_str, str_eq, parse_u32,
};
use vstd::prelude::*;
use vstd::string::*;

verus! {

/// The default-interpreter setting: one interpreter for everything, or a
/// table keyed by file extension (or whole filename), with `*` as the
/// wildcard key.
pub enum InterpreterSetting {
    /// One interpreter for every file.
    Single(String),
    /// Extension (or filename) to interpreter, first match winning.
    Multiple(Vec<(String, String)>),
}

/// The views of a key/value table.
pub open spec fn kvs_view(s: Seq<(String, String)>) -> Seq<(Seq<char>, Seq<char>)> {
    s.map_values(|p: (String, String)| (p.0@, p.1@))
}

/// The value under `key`, if any (first match).
pub open spec fn kv_lookup(kvs: Seq<(Seq<char>, Seq<char>)>, key: Seq<char>) -> Option<Seq<char>>
    decreases kvs.len(),
{
    if kvs.len() == 0 {
        Option::None
    } else if kvs[0].0 == key {
        Option::Some(kvs[0].1)
    } else {
        kv_lookup(kvs.drop_first(), key)
    }
}

/// The table with `key` bound to `value`: the first entry under `key` is
/// replaced, or a new entry is appended.
pub open spec fn kv_put(
    kvs: Seq<(Seq<char>, Seq<char>)>,
    key: Seq<char>,
    value: Seq<char>,
) -> Seq<(Seq<char>, Seq<char>)>
    decreases kvs.len(),
{
    if kvs.len() == 0 {
        seq![(key, value)]
    } else if kvs[0].0 == key {
        seq![(key, value)] + kvs.drop_first()
    } else {
        seq![kvs[0]] + kv_put(kvs.drop_first(), key, value)
    }
}

/// A first match at index `i` settles `kv_lookup`.
proof fn lemma_kv_lookup_at(kvs: Seq<(Seq<char>, Seq<char>)>, key: Seq<char>, i: int)
    requires
        0 <= i < kvs.len(),
        kvs[i].0 == key,
        forall|k: int| 0 <= k < i ==> kvs[k].0 != key,
    ensures
        kv_lookup(kvs, key) == Option::Some(kvs[i].1),
    decreases i,
{
    if i > 0 {
        lemma_kv_lookup_at(kvs.drop_first(), key, i - 1);
    }
}

/// No match anywhere settles `kv_lookup` to `None`.
proof fn lemma_kv_lookup_none(kvs: Seq<(Seq<char>, Seq<char>)>, key: Seq<char>)
    requires
        forall|k: int| 0 <= k < kvs.len() ==> kvs[k].0 != key,
    ensures
        kv_lookup(kvs, key) is None,
    decreases kvs.len(),
{
    if kvs.len() > 0 {
        lemma_kv_lookup_none(kvs.drop_first(), key);
    }
}

/// Binding a key matched first at `i` updates that entry in place.
proof fn lemma_kv_put_at(kvs: Seq<(Seq<char>, Seq<char>)>, key: Seq<char>, value: Seq<char>, i: int)
    requires
        0 <= i < kvs.len(),
        kvs[i].0 == key,
        forall|k: int| 0 <= k < i ==> kvs[k].0 != key,
    ensures
        kv_put(kvs, key, value) == kvs.update(i, (key, value)),
    decreases i,
{
    if i == 0 {
        assert(kv_put(kvs, key, value) =~= kvs.update(0, (key, value)));
    } else {
        lemma_kv_put_at(kvs.drop_first(), key, value, i - 1);
        assert(kv_put(kvs, key, value) =~= kvs.update(i, (key, value)));
    }
}

/// Binding an absent key appends an entry.
proof fn lemma_kv_put_append(kvs: Seq<(Seq<char>, Seq<char>)>, key: Seq<char>, value: Seq<char>)
    requires
        forall|k: int| 0 <= k < kvs.len() ==> kvs[k].0 != key,
    ensures
        kv_put(kvs, key, value) == kvs + seq![(key, value)],
    decreases kvs.len(),
{
    if kvs.len() == 0 {
        assert(kv_put(kvs, key, value) =~= kvs + seq![(key, value)]);
    } else {
        lemma_kv_put_append(kvs.drop_first(), key, value);
        assert(kv_put(kvs, key, value) =~= kvs + seq![(key, value)]);
    }
}

/// Interpreter defaults.
pub struct DefaultsConfig {
    /// The default-interpreter setting, if any.
    pub interpreter: Option<InterpreterSetting>,
}

impl Default for DefaultsConfig {
    fn default() -> (r: Self)
        ensures
            r.interpreter is None,
    {
        DefaultsConfig { interpreter: None }
    }
}

/// Script execution settings.
pub struct ExecutionConfig {
    /// Ask before running a script.
    pub confirm_before_run: Option<bool>,
}

impl Default for ExecutionConfig {
    fn default() -> (r: Self)
        ensures
            r.confirm_before_run is None,
    {
        ExecutionConfig { confirm_before_run: None }
    }
}

/// Cache retention settings.
pub struct CacheConfig {
    /// Days after which an entry counts as expired.
    pub retention_days: Option<u32>,
}

impl Default for CacheConfig {
    fn default() -> (r: Self)
        ensures
            r.retention_days is None,
    {
        CacheConfig { retention_days: None }
    }
}

/// Everything the user can configure.
pub struct UserConfig {
    /// Interpreter defaults.
    pub defaults: Option<DefaultsConfig>,
    /// Execution settings.
    pub execution: Option<ExecutionConfig>,
    /// Cache settings.
    pub cache: Option<CacheConfig>,
}

impl Default for UserConfig {
    fn default() -> (r: Self)
        ensures
            r.defaults is None,
            r.execution is None,
            r.cache is None,
    {
        UserConfig { defaults: None, execution: None, cache: None }
    }
}

/// The directory layout one invocation works in, plus the user's settings.
/// Paths are carried as plain text; the surrounding program derives them
/// from the platform's conventions and binds them to the file system.
pub struct Config {
    /// Root of the cache area.
    pub cache_dir: String,
    /// The persisted metadata index.
    pub cache_file: String,
    /// Root of the content store.
    pub contents_dir: String,
    /// Where downloads land.
    pub download_dir: String,
    /// The configuration file.
    pub config_file: String,
    /// The user's settings.
    pub user_config: UserConfig,
}

/// What `get_config_value` answers for each key, over the configuration's
/// mathematical content.
pub open spec fn spec_get_config(c: UserConfig, key: Seq<char>) -> Option<Seq<char>> {
    if is_prefix_of("defaults.interpreter."@, key) {
        let ext = key.skip("defaults.interpreter."@.len() as int);
        match c.defaults {
            Option::Some(d) => match d.interpreter {
                Option::Some(InterpreterSetting::Multiple(m)) => kv_lookup(kvs_view(m@), ext),
                Option::Some(InterpreterSetting::Single(s)) => if ext == "*"@ {
                    Option::Some(s@)
                } else {
                    Option::None
                },
                Option::None => Option::None,
            },
            Option::None => Option::None,
        }
    } else if key == "defaults.interpreter"@ {
        match c.defaults {
            Option::Some(d) => match d.interpreter {
                Option::Some(InterpreterSetting::Single(s)) => Option::Some(s@),
                Option::Some(InterpreterSetting::Multiple(m)) => match kv_lookup(
                    kvs_view(m@),
                    "*"@,
                ) {
                    Option::Some(v) => Option::Some(v),
                    Option::None => Option::Some(
                        spec_dec(m@.len() as nat) + " extensions configured"@,
                    ),
                },
                Option::None => Option::None,
            },
            Option::None => Option::None,
        }
    } else if key == "execution.confirm_before_run"@ {
        match c.execution {
            Option::Some(e) => match e.confirm_before_run {
                Option::Some(true) => Option::Some("true"@),
                Option::Some(false) => Option::Some("false"@),
                Option::None => Option::None,
            },
            Option::None => Option::None,
        }
    } else if key == "cache.retention_days"@ {
        match c.cache {
            Option::Some(cc) => match cc.retention_days {
                Option::Some(d) => Option::Some(spec_dec(d as nat)),
                Option::None => Option::None,
            },
            Option::None => Option::None,
        }
    } else {
        Option::None
    }
}

impl Config {
    /// Look a configuration key up. Nested keys address the interpreter
    /// table (`defaults.interpreter.<extension>`); the plain keys answer
    /// the three scalar settings.
    pub fn get_config_value(&self, key: &str) -> (r: Option<String>)
        ensures
            match r {
                Option::Some(v) => spec_get_config(self.user_config, key@) == Option::Some(v@),
                Option::None => spec_get_config(self.user_config, key@) is None,
            },
    {
        proof {
            reveal_strlit("execution.confirm_before_run");
            reveal_strlit("cache.retention_days");
        }
        let prefix = "defaults.interpreter.";
        if starts_with_str(key, prefix) {
            let plen = prefix.unicode_len();
            let klen = key.unicode_len();
            let ext = key.substring_char(plen, klen);
            proof {
                assert(ext@ =~= key@.skip(prefix@.len() as int));
            }
            match &self.user_config.defaults {
                Option::Some(d) => match &d.interpreter {
                    Option::Some(InterpreterSetting::Multiple(m)) => Self::table_get(m, ext),
                    Option::Some(InterpreterSetting::Single(s)) => {
                        if str_eq(ext, "*") {
                            Some(s.clone())
                        } else {
                            None
                        }
                    },
                    Option::None => None,
                },
                Option::None => None,
            }
        } else if str_eq(key, "defaults.interpreter") {
            match &self.user_config.defaults {
                Option::Some(d) => match &d.interpreter {
                    Option::Some(InterpreterSetting::Single(s)) => Some(s.clone()),
                    Option::Some(InterpreterSetting::Multiple(m)) => {
                        match Self::table_get(m, "*") {
                            Option::Some(v) => Some(v),
                            Option::None => {
                                let mut out = dec_string(m.len() as u128);
                                out.append(" extensions configured");
                                Some(out)
                            },
                        }
                    },
                    Option::None => None,
                },
                Option::None => None,
            }
        } else if str_eq(key, "execution.confirm_before_run") {
            match &self.user_config.execution {
                Option::Some(e) => match e.confirm_before_run {
                    Option::Some(b) => {
                        if b {
                            Some(String::from_str("true"))
                        } else {
                            Some(String::from_str("false"))
                        }
                    },
                    Option::None => None,
                },
                Option::None => None,
            }
        } else if str_eq(key, "cache.retention_days") {
            match &self.user_config.cache {
                Option::Some(cc) => match cc.retention_days {
                    Option::Some(d) => Some(dec_string(d as u128)),
                    Option::None => None,
                },
                Option::None => None,
            }
        } else {
            None
        }
    }

    /// First-match lookup in the interpreter table.
    pub(crate) fn table_get(m: &Vec<(String, String)>, key: &str) -> (r: Option<String>)
        ensures
            match r {
                Option::Some(v) => kv_lookup(kvs_view(m@), key@) == Option::Some(v@),
                Option::None => kv_lookup(kvs_view(m@), key@) is None,
            },
    {
        let ghost kvs = kvs_view(m@);
        let mut i: usize = 0;
        while i < m.len()
            invariant
                i <= m.len(),
                kvs == kvs_view(m@),
                kvs.len() == m.len(),
                forall|k: int| 0 <= k < i ==> kvs[k].0 != key@,
            decreases m.len() - i,
        {
            proof {
                assert(kvs[i as int] == (m@[i as int].0@, m@[i as int].1@));
            }
            if str_eq(m[i].0.as_str(), key) {
                proof {
                    lemma_kv_lookup_at(kvs, key@, i as int);
                }
                return Some(m[i].1.clone());
            }
            i = i + 1;
        }
        proof {
            lemma_kv_lookup_none(kvs, key@);
        }
        None
    }

    /// First-match insertion or replacement in the interpreter table.
    fn table_put(m: &mut Vec<(String, String)>, key: &str, value: &str)
        ensures
            kvs_view(final(m)@) == kv_put(kvs_view(old(m)@), key@, value@),
    {
        let ghost kvs = kvs_view(old(m)@);
        let mut i: usize = 0;
        while i < m.len()
            invariant
                i <= m.len(),
                m@ == old(m)@,
                kvs == kvs_view(m@),
                kvs.len() == m.len(),
                forall|k: int| 0 <= k < i ==> kvs[k].0 != key@,
            decreases m.len() - i,
        {
            proof {
                assert(kvs[i as int] == (m@[i as int].0@, m@[i as int].1@));
            }
            if str_eq(m[i].0.as_str(), key) {
                proof {
                    lemma_kv_put_at(kvs, key@, value@, i as int);
                }
                m.set(i, (String::from_str(key), String::from_str(value)));
                proof {
                    assert(kvs_view(m@) =~= kvs.update(i as int, (key@, value@)));
                }
                return ;
            }
            i = i + 1;
        }
        proof {
            lemma_kv_put_append(kvs, key@, value@);
        }
        m.push((String::from_str(key), String::from_str(value)));
        proof {
            assert(kvs_view(m@) =~= kvs + seq![(key@, value@)]);
        }
    }
}


/// Whether `set_config_value` accepts a key/value pair: the interpreter
/// keys take any value, the boolean key takes `true` or `false`, the
/// retention key takes an unsigned number of days.
pub open spec fn spec_set_valid(key: Seq<char>, value: Seq<char>) -> bool {
    ||| is_prefix_of("defaults.interpreter."@, key)
    ||| key == "defaults.interpreter"@
    ||| (key == "execution.confirm_before_run"@ && (value == "true"@ || value == "false"@))
    ||| (key == "cache.retention_days"@ && spec_parse_u32(value) is Some)
}

/// How a successful `set_config_value` relates the new configuration to
/// the old one. Writing a nested interpreter key replaces a
/// single-interpreter setting with a fresh table, as the key/value model
/// has no place for the old scalar.
pub open spec fn spec_set_applied(
    oldc: UserConfig,
    newc: UserConfig,
    key: Seq<char>,
    value: Seq<char>,
) -> bool {
    if is_prefix_of("defaults.interpreter."@, key) {
        let ext = key.skip("defaults.interpreter."@.len() as int);
        let oldm = match oldc.defaults {
            Option::Some(d) => match d.interpreter {
                Option::Some(InterpreterSetting::Multiple(m)) => kvs_view(m@),
                _ => Seq::empty(),
            },
            Option::None => Seq::empty(),
        };
        &&& newc.defaults matches Option::Some(d) && d.interpreter matches Option::Some(
            InterpreterSetting::Multiple(m),
        ) && kvs_view(m@) == kv_put(oldm, ext, value)
        &&& newc.execution == oldc.execution
        &&& newc.cache == oldc.cache
    } else if key == "defaults.interpreter"@ {
        &&& newc.defaults matches Option::Some(d) && d.interpreter matches Option::Some(
            InterpreterSetting::Single(s),
        ) && s@ == value
        &&& newc.execution == oldc.execution
        &&& newc.cache == oldc.cache
    } else if key == "execution.confirm_before_run"@ {
        &&& newc.execution matches Option::Some(e) && e.confirm_before_run == Option::Some(
            value == "true"@,
        )
        &&& newc.defaults == oldc.defaults
        &&& newc.cache == oldc.cache
    } else if key == "cache.retention_days"@ {
        &&& newc.cache matches Option::Some(cc) && cc.retention_days == spec_parse_u32(value)
        &&& newc.defaults == oldc.defaults
        &&& newc.execution == oldc.execution
    } else {
        false
    }
}

impl Config {
    /// The table with `key` freshly bound to `value`, the entries
    /// otherwise kept.
    fn table_with(m: &Vec<(String, String)>, key: &str, value: &str) -> (r: Vec<(String, String)>)
        ensures
            kvs_view(r@) == kv_put(kvs_view(m@), key@, value@),
    {
        let ghost kvs = kvs_view(m@);
        // find the first entry under the key, if any
        let mut j: usize = 0;
        let mut found: bool = false;
        while j < m.len() && !found
            invariant
                j <= m.len(),
                kvs == kvs_view(m@),
                kvs.len() == m.len(),
                found ==> j < m.len() && kvs[j as int].0 == key@,
                forall|k: int| 0 <= k < j ==> kvs[k].0 != key@,
            decreases m.len() - j + (if found { 0int } else { 1 }),
    {
            proof {
                assert(kvs[j as int] == (m@[j as int].0@, m@[j as int].1@));
            }
            if str_eq(m[j].0.as_str(), key) {
                found = true;
            } else {
                j = j + 1;
            }
        }
        proof {
            if found {
                lemma_kv_put_at(kvs, key@, value@, j as int);
            } else {
                lemma_kv_put_none_helper(kvs, key@, value@);
            }
        }
        // copy the entries, replacing the matched one
        let mut out: Vec<(String, String)> = Vec::new();
        let mut i: usize = 0;
        while i < m.len()
            invariant
                i <= m.len(),
                kvs == kvs_view(m@),
                kvs.len() == m.len(),
                found ==> j < m.len() && kvs[j as int].0 == key@,
                out@.len() == i,
                forall|k: int|
                    0 <= k < i ==> #[trigger] kvs_view(out@)[k] == (if found && k == j as int {
                        (key@, value@)
                    } else {
                        kvs[k]
                    }),
            decreases m.len() - i,
        {
            proof {
                assert(kvs[i as int] == (m@[i as int].0@, m@[i as int].1@));
            }
            let ghost prev = out@;
            if found && i == j {
                out.push((String::from_str(key), String::from_str(value)));
            } else {
                out.push((m[i].0.clone(), m[i].1.clone()));
            }
            proof {
                assert forall|k: int|
                    0 <= k < i + 1 implies #[trigger] kvs_view(out@)[k] == (if found && k
                    == j as int {
                    (key@, value@)
                } else {
                    kvs[k]
                }) by {
                    assert(kvs_view(out@)[k] == (out@[k].0@, out@[k].1@));
                    if k < i {
                        assert(out@[k] == prev[k]);
                        assert(kvs_view(prev)[k] == (prev[k].0@, prev[k].1@));
                    } else {
                        assert(out@[k] == out@.last());
                    }
                }
            }
            i = i + 1;
        }
        if !found {
            let ghost prepush = out@;
            out.push((String::from_str(key), String::from_str(value)));
            proof {
                assert forall|k: int|
                    0 <= k < out@.len() implies #[trigger] kvs_view(out@)[k] == (kvs + seq![
                    (key@, value@),
                ])[k] by {
                    assert(kvs_view(out@)[k] == (out@[k].0@, out@[k].1@));
                    if k < prepush.len() {
                        assert(out@[k] == prepush[k]);
                        assert(kvs_view(prepush)[k] == (prepush[k].0@, prepush[k].1@));
                    }
                }
                assert(kvs_view(out@) =~= kvs + seq![(key@, value@)]);
            }
        } else {
            proof {
                assert(kvs_view(out@) =~= kvs.update(j as int, (key@, value@)));
            }
        }
        out
    }

    /// Apply one key/value setting: nested interpreter keys update the
    /// interpreter table (replacing a scalar setting with a fresh table),
    /// the plain keys set their field after the value parses. Persisting
    /// the changed configuration is the caller's concern. Unknown keys
    /// and unparsable values are rejected, leaving everything unchanged.
    pub fn set_config_value(&mut self, key: &str, value: &str) -> (r: Result<(), GistCacheError>)
        ensures
            match r {
                Result::Ok(_) => spec_set_valid(key@, value@) && spec_set_applied(
                    old(self).user_config,
                    final(self).user_config,
                    key@,
                    value@,
                ),
                Result::Err(e) => e is Config && !spec_set_valid(key@, value@) && *final(self)
                    == *old(self),
            },
            final(self).cache_dir == old(self).cache_dir,
            final(self).cache_file == old(self).cache_file,
            final(self).contents_dir == old(self).contents_dir,
            final(self).download_dir == old(self).download_dir,
            final(self).config_file == old(self).config_file,
    {
        proof {
            reveal_strlit("execution.confirm_before_run");
            reveal_strlit("cache.retention_days");
        }
        let prefix = "defaults.interpreter.";
        if starts_with_str(key, prefix) {
            let plen = prefix.unicode_len();
            let klen = key.unicode_len();
            let ext = key.substring_char(plen, klen);
            proof {
                assert(ext@ =~= key@.skip(prefix@.len() as int));
            }
            let empty_table: Vec<(String, String)> = Vec::new();
            proof {
                assert(kvs_view(empty_table@) =~= Seq::<(Seq<char>, Seq<char>)>::empty());
            }
            let newtable = match &self.user_config.defaults {
                Option::Some(d) => match &d.interpreter {
                    Option::Some(InterpreterSetting::Multiple(m)) => Self::table_with(
                        m,
                        ext,
                        value,
                    ),
                    _ => Self::table_with(&empty_table, ext, value),
                },
                Option::None => Self::table_with(&empty_table, ext, value),
            };
            self.user_config.defaults = Some(
                DefaultsConfig { interpreter: Some(InterpreterSetting::Multiple(newtable)) },
            );
            Ok(())
        } else if str_eq(key, "defaults.interpreter") {
            self.user_config.defaults = Some(
                DefaultsConfig { interpreter: Some(InterpreterSetting::Single(value.to_owned())) },
            );
            Ok(())
        } else if str_eq(key, "execution.confirm_before_run") {
            if str_eq(value, "true") {
                self.user_config.execution = Some(
                    ExecutionConfig { confirm_before_run: Some(true) },
                );
                Ok(())
            } else if str_eq(value, "false") {
                self.user_config.execution = Some(
                    ExecutionConfig { confirm_before_run: Some(false) },
                );
                Ok(())
            } else {
                let mut msg = String::from_str("invalid boolean value: ");
                msg.append(value);
                Err(GistCacheError::Config(msg))
            }
        } else if str_eq(key, "cache.retention_days") {
            match parse_u32(value) {
                Option::Some(days) => {
                    self.user_config.cache = Some(CacheConfig { retention_days: Some(days) });
                    Ok(())
                },
                Option::None => {
                    let mut msg = String::from_str("invalid number value: ");
                    msg.append(value);
                    Err(GistCacheError::Config(msg))
                },
            }
        } else {
            let mut msg = String::from_str("unknown config key: ");
            msg.append(key);
            Err(GistCacheError::Config(msg))
        }
    }
}

/// Binding a key into an empty or unmatched table appends.
proof fn lemma_kv_put_none_helper(kvs: Seq<(Seq<char>, Seq<char>)>, key: Seq<char>, value: Seq<char>)
    requires
        forall|k: int| 0 <= k < kvs.len() ==> kvs[k].0 != key,
    ensures
        kv_put(kvs, key, value) == kvs + seq![(key, value)],
{
    lemma_kv_put_append(kvs, key, value);
}

} // verus!