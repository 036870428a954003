//! The secret store: tokens live in the system keychain and, as a fallback,
//! in a JSON file in the application data directory. This module holds the
//! rules around the storage itself: where the fallback file and its lock
//! are, which stored values are accepted, how a token is written and
//! removed, and which value a read returns.
use crate::paths;
use crate::settings::{contains_disallowed_token_chars, has_disallowed_token_char, lemma_token_check_idempotent, token_check, validate_secret_token};
use crate::text::str_eq;
use crate::transcript::{parse_json, spec_json_error, spec_json_value, JsonValue};
use vstd::prelude::*;

verus! {

broadcast use vstd::string::group_string_axioms;

/// The keychain service the tokens are filed under.
pub const SERVICE_NAME: &'static str = "BigEcho";

/// The fallback file's name.
pub const FALLBACK_FILE_NAME: &'static str = "secrets.local.json";

/// The fallback file of an application data directory.
pub fn fallback_path(app_data_dir: &str) -> (r: String)
    ensures
        r@ == paths::join(app_data_dir@, "secrets.local.json"@),
{
    paths::join_path(app_data_dir, FALLBACK_FILE_NAME)
}

/// The lock file that serialises writers of the fallback file: the file's
/// name with `.lock` appended, beside it.
pub fn fallback_lock_path(app_data_dir: &str) -> (r: String)
    ensures
        r@ == paths::join(app_data_dir@, "secrets.local.json.lock"@),
{
    paths::join_path(app_data_dir, "secrets.local.json.lock")
}

/// The map a list of entries stands for (a later entry for a name wins).
pub open spec fn entries_map(s: Seq<(String, String)>) -> Map<Seq<char>, Seq<char>>
    decreases s.len(),
{
    if s.len() == 0 {
        Map::empty()
    } else {
        entries_map(s.drop_last()).insert(s.last().0@, s.last().1@)
    }
}

pub open spec fn unique_names(s: Seq<(String, String)>) -> bool {
    forall|i: int, j: int| 0 <= i < j < s.len() ==> s[i].0@ != s[j].0@
}

proof fn lemma_entries_map_lookup(s: Seq<(String, String)>, name: Seq<char>)
    requires
        unique_names(s),
    ensures
        entries_map(s).contains_key(name) <==> exists|i: int| 0 <= i < s.len() && s[i].0@ == name,
        forall|i: int| 0 <= i < s.len() && s[i].0@ == name ==> entries_map(s)[name] == s[i].1@,
    decreases s.len(),
{
    if s.len() > 0 {
        lemma_entries_map_lookup(s.drop_last(), name);
        let p = s.drop_last();
        if exists|i: int| 0 <= i < s.len() && s[i].0@ == name {
            let i = choose|i: int| 0 <= i < s.len() && s[i].0@ == name;
            if i < s.len() - 1 {
                assert(p[i].0@ == name);
            }
        }
        assert forall|i: int| 0 <= i < p.len() && p[i].0@ == name implies exists|j: int|
            0 <= j < s.len() && s[j].0@ == name by {
            assert(s[i].0@ == name);
        }
    }
}

proof fn lemma_entries_map_update(s: Seq<(String, String)>, i: int, e: (String, String))
    requires
        unique_names(s),
        0 <= i < s.len(),
        s[i].0@ == e.0@,
    ensures
        entries_map(s.update(i, e)) == entries_map(s).insert(e.0@, e.1@),
    decreases s.len(),
{
    let t = s.update(i, e);
    if i == s.len() - 1 {
        assert(t.drop_last() =~= s.drop_last());
        assert(entries_map(s.drop_last()).insert(e.0@, s.last().1@).insert(e.0@, e.1@) =~= entries_map(
            s.drop_last(),
        ).insert(e.0@, e.1@));
    } else {
        lemma_entries_map_update(s.drop_last(), i, e);
        assert(t.drop_last() =~= s.drop_last().update(i, e));
        assert(s.last().0@ != e.0@);
        assert(entries_map(s.drop_last()).insert(e.0@, e.1@).insert(s.last().0@, s.last().1@)
            =~= entries_map(s.drop_last()).insert(s.last().0@, s.last().1@).insert(e.0@, e.1@));
    }
}

proof fn lemma_entries_map_remove(s: Seq<(String, String)>, i: int)
    requires
        unique_names(s),
        0 <= i < s.len(),
    ensures
        entries_map(s.remove(i)) == entries_map(s).remove(s[i].0@),
    decreases s.len(),
{
    let k = s[i].0@;
    if i == s.len() - 1 {
        assert(s.remove(i) =~= s.drop_last());
        lemma_entries_map_lookup(s.drop_last(), k);
        assert(!entries_map(s.drop_last()).contains_key(k));
        assert(entries_map(s.drop_last()) =~= entries_map(s.drop_last()).insert(k, s.last().1@).remove(
            k,
        ));
    } else {
        lemma_entries_map_remove(s.drop_last(), i);
        assert(s.remove(i).drop_last() =~= s.drop_last().remove(i));
        assert(s.remove(i).last() == s.last());
        assert(s.last().0@ != k);
        assert(entries_map(s.drop_last()).remove(k).insert(s.last().0@, s.last().1@) =~= entries_map(
            s.drop_last(),
        ).insert(s.last().0@, s.last().1@).remove(k));
    }
}

/// The tokens of the fallback file, by name.
pub struct SecretMap {
    entries: Vec<(String, String)>,
}

impl View for SecretMap {
    type V = Map<Seq<char>, Seq<char>>;

    closed spec fn view(&self) -> Map<Seq<char>, Seq<char>> {
        entries_map(self.entries@)
    }
}

impl SecretMap {
    #[verifier::type_invariant]
    closed spec fn names_unique(self) -> bool {
        unique_names(self.entries@)
    }

    /// No tokens.
    pub fn new() -> (m: Self)
        ensures
            m@ == Map::<Seq<char>, Seq<char>>::empty(),
    {
        SecretMap { entries: Vec::new() }
    }

    fn position(&self, name: &str) -> (r: Option<usize>)
        ensures
            match r {
                Some(i) => i < self.entries@.len() && self.entries@[i as int].0@ == name@,
                None => forall|i: int| 0 <= i < self.entries@.len() ==> self.entries@[i].0@ != name@,
            },
    {
        let mut i: usize = 0;
        while i < self.entries.len()
            invariant
                i <= self.entries@.len(),
                forall|j: int| 0 <= j < i ==> self.entries@[j].0@ != name@,
            decreases self.entries@.len() - i,
        {
            if str_eq(self.entries[i].0.as_str(), name) {
                return Some(i);
            }
            i = i + 1;
        }
        None
    }

    /// The token stored under a name.
    pub fn get(&self, name: &str) -> (r: Option<&str>)
        ensures
            match r {
                Some(v) => self@.contains_key(name@) && self@[name@] == v@,
                None => !self@.contains_key(name@),
            },
    {
        proof {
            use_type_invariant(self);
            lemma_entries_map_lookup(self.entries@, name@);
        }
        match self.position(name) {
            Some(i) => Some(self.entries[i].1.as_str()),
            None => None,
        }
    }

    /// Stores a token under a name, replacing one stored before.
    pub fn insert(&mut self, name: String, value: String)
        ensures
            final(self)@ == old(self)@.insert(name@, value@),
    {
        proof {
            use_type_invariant(&*self);
        }
        let ghost before = self.entries@;
        let ghost key = name@;
        let ghost val = value@;
        match self.position(name.as_str()) {
            Some(i) => {
                let mut entries: Vec<(String, String)> = Vec::new();
                std::mem::swap(&mut entries, &mut self.entries);
                proof {
                    lemma_entries_map_update(before, i as int, (name, value));
                }
                entries.set(i, (name, value));
                proof {
                    assert(entries@ == before.update(i as int, (name, value)));
                    assert(unique_names(entries@));
                }
                self.entries = entries;
            },
            None => {
                let mut entries: Vec<(String, String)> = Vec::new();
                std::mem::swap(&mut entries, &mut self.entries);
                entries.push((name, value));
                proof {
                    assert(entries@.drop_last() =~= before);
                    assert(unique_names(entries@));
                }
                self.entries = entries;
            },
        }
        proof {
            assert(self@ =~= entries_map(before).insert(key, val));
        }
    }

    /// Removes the token stored under a name; says whether there was one.
    pub fn remove(&mut self, name: &str) -> (removed: bool)
        ensures
            final(self)@ == old(self)@.remove(name@),
            removed == old(self)@.contains_key(name@),
    {
        proof {
            use_type_invariant(&*self);
            lemma_entries_map_lookup(self.entries@, name@);
        }
        let ghost before = self.entries@;
        match self.position(name) {
            Some(i) => {
                let mut entries: Vec<(String, String)> = Vec::new();
                std::mem::swap(&mut entries, &mut self.entries);
                proof {
                    lemma_entries_map_remove(before, i as int);
                }
                entries.remove(i);
                proof {
                    assert(entries@ == before.remove(i as int));
                    assert forall|a: int, b: int| 0 <= a < b < entries@.len() implies entries@[a].0@
                        != entries@[b].0@ by {
                        let a0 = if a < i { a } else { a + 1 };
                        let b0 = if b < i { b } else { b + 1 };
                        assert(entries@[a] == before[a0] && entries@[b] == before[b0]);
                    }
                }
                self.entries = entries;
                true
            },
            None => {
                proof {
                    assert(entries_map(before).remove(name@) =~= entries_map(before));
                }
                false
            },
        }
    }

    /// The stored tokens as name and value, each name once.
    pub fn to_entries(&self) -> (r: Vec<(String, String)>)
        ensures
            entries_map(r@) == self@,
            unique_names(r@),
    {
        proof {
            use_type_invariant(self);
        }
        let mut out: Vec<(String, String)> = Vec::new();
        let mut i: usize = 0;
        while i < self.entries.len()
            invariant
                i <= self.entries@.len(),
                unique_names(self.entries@),
                out@.len() == i,
                forall|j: int| 0 <= j < i ==> #[trigger] out@[j].0@ == self.entries@[j].0@
                    && out@[j].1@ == self.entries@[j].1@,
                entries_map(out@) == entries_map(self.entries@.subrange(0, i as int)),
            decreases self.entries@.len() - i,
        {
            let ghost before = out@;
            let (n, v) = (&self.entries[i].0, &self.entries[i].1);
            out.push((n.clone(), v.clone()));
            proof {
                assert(out@.drop_last() =~= before);
                assert(self.entries@.subrange(0, i + 1).drop_last() =~= self.entries@.subrange(
                    0,
                    i as int,
                ));
                assert(entries_map(out@) == entries_map(before).insert(n@, v@));
            }
            i = i + 1;
        }
        proof {
            assert(self.entries@.subrange(0, self.entries@.len() as int) =~= self.entries@);
        }
        out
    }
}

// ----------------------------------------------------------- stored file

pub open spec fn stored_secret_error(name: Seq<char>) -> Seq<char> {
    "Invalid stored secret for "@ + name + ": control characters are not allowed"@
}

/// What the fallback file's entries (a name and, for string values, the
/// text) give: the tokens, or the first entry holding a disallowed
/// character.
pub open spec fn stored_secrets(entries: Seq<(String, Option<String>)>) -> Result<
    Map<Seq<char>, Seq<char>>,
    Seq<char>,
>
    decreases entries.len(),
{
    if entries.len() == 0 {
        Ok(Map::empty())
    } else {
        match stored_secrets(entries.drop_last()) {
            Err(e) => Err(e),
            Ok(m) => match entries.last().1 {
                Some(t) => if has_disallowed_token_char(t@) {
                    Err(stored_secret_error(entries.last().0@))
                } else {
                    Ok(m.insert(entries.last().0@, t@))
                },
                None => Ok(m),
            },
        }
    }
}

/// Reads the fallback file's entries in file order; entries that are not
/// strings are ignored.
pub fn secrets_from_stored(entries: &Vec<(String, Option<String>)>) -> (r: Result<SecretMap, String>)
    ensures
        match stored_secrets(entries@) {
            Ok(m) => r matches Ok(s) && s@ == m,
            Err(e) => r matches Err(x) && x@ == e,
        },
{
    let mut map = SecretMap::new();
    let mut i: usize = 0;
    while i < entries.len()
        invariant
            i <= entries@.len(),
            stored_secrets(entries@.subrange(0, i as int)) == Ok::<Map<Seq<char>, Seq<char>>, Seq<char>>(
                map@,
            ),
        decreases entries@.len() - i,
    {
        let ghost pre = entries@.subrange(0, i + 1);
        proof {
            assert(pre.drop_last() =~= entries@.subrange(0, i as int));
        }
        match &entries[i].1 {
            Some(text) => {
                if contains_disallowed_token_chars(text.as_str()) {
                    let mut e = "Invalid stored secret for ".to_string();
                    e.append(entries[i].0.as_str());
                    e.append(": control characters are not allowed");
                    proof {
                        lemma_error_persists(entries@, i as int + 1);
                    }
                    return Err(e);
                }
                map.insert(entries[i].0.clone(), text.clone());
            },
            None => {},
        }
        i = i + 1;
    }
    proof {
        assert(entries@.subrange(0, entries@.len() as int) =~= entries@);
    }
    Ok(map)
}

proof fn lemma_error_persists(entries: Seq<(String, Option<String>)>, k: int)
    requires
        0 < k <= entries.len(),
        stored_secrets(entries.subrange(0, k)) is Err,
    ensures
        stored_secrets(entries) == stored_secrets(entries.subrange(0, k)),
    decreases entries.len() - k,
{
    if k < entries.len() {
        assert(entries.subrange(0, k + 1).drop_last() =~= entries.subrange(0, k));
        lemma_error_persists(entries, k + 1);
    } else {
        assert(entries.subrange(0, k) =~= entries);
    }
}

// ----------------------------------------------------------- reads/writes

/// Writes a token: it is validated first (trimmed, not empty, no control
/// characters), and the validated form is what is stored.
pub fn set_secret_value(map: &mut SecretMap, name: String, value: &str) -> (r: Result<(), String>)
    ensures
        match token_check(value@) {
            Ok(t) => r is Ok && final(map)@ == old(map)@.insert(name@, t),
            Err(e) => (r matches Err(x) && x@ == e) && final(map)@ == old(map)@,
        },
{
    let validated = validate_secret_token(value)?;
    map.insert(name, validated.to_string());
    Ok(())
}

/// The token a read returns: the keychain's when it gave one, else the
/// fallback file's, validated either way; with neither, the keychain's
/// error.
pub open spec fn secret_read(keyring: Result<Seq<char>, Seq<char>>, fallback: Option<Seq<char>>) -> Result<
    Seq<char>,
    Seq<char>,
> {
    match keyring {
        Ok(v) => token_check(v),
        Err(k) => match fallback {
            Some(v) => token_check(v),
            None => Err(k),
        },
    }
}

pub fn resolve_secret(keyring: Result<String, String>, fallback: Option<&str>) -> (r: Result<
    String,
    String,
>)
    ensures
        match secret_read(
            match keyring {
                Ok(v) => Ok(v@),
                Err(k) => Err(k@),
            },
            match fallback {
                Some(v) => Some(v@),
                None => None,
            },
        ) {
            Ok(t) => r matches Ok(x) && x@ == t,
            Err(e) => r matches Err(x) && x@ == e,
        },
{
    match keyring {
        Ok(v) => match validate_secret_token(v.as_str()) {
            Ok(t) => Ok(t.to_string()),
            Err(e) => Err(e),
        },
        Err(k) => match fallback {
            Some(v) => match validate_secret_token(v) {
                Ok(t) => Ok(t.to_string()),
                Err(e) => Err(e),
            },
            None => Err(k),
        },
    }
}

/// A token written to the fallback file reads back as written (in its
/// validated form) whenever the keychain cannot be read.
pub proof fn lemma_written_secret_reads_back(
    stored: Map<Seq<char>, Seq<char>>,
    name: Seq<char>,
    value: Seq<char>,
    keyring_error: Seq<char>,
)
    requires
        token_check(value) is Ok,
    ensures
        secret_read(
            Err(keyring_error),
            Some(stored.insert(name, token_check(value)->Ok_0)[name]),
        ) == token_check(value),
{
    lemma_token_check_idempotent(value);
}

/// After a token is removed, a read that the keychain cannot serve fails
/// with the keychain's error; removing it again changes nothing.
pub proof fn lemma_removed_secret_is_gone(
    stored: Map<Seq<char>, Seq<char>>,
    name: Seq<char>,
    keyring_error: Seq<char>,
)
    ensures
        !stored.remove(name).contains_key(name),
        secret_read(Err(keyring_error), None) == Err::<Seq<char>, Seq<char>>(keyring_error),
        stored.remove(name).remove(name) == stored.remove(name),
{
    assert(stored.remove(name).remove(name) =~= stored.remove(name));
}

/// An entry of the fallback file as it is weighed: its name, and its text
/// when the value is a string.
pub open spec fn stored_entry(e: (String, JsonValue)) -> (String, Option<String>) {
    (
        e.0,
        match e.1 {
            JsonValue::Str(t) => Some(t),
            _ => None,
        },
    )
}

pub open spec fn stored_entries(entries: Seq<(String, JsonValue)>) -> Seq<(String, Option<String>)> {
    entries.map_values(|e: (String, JsonValue)| stored_entry(e))
}

/// The secrets of the fallback file's text: the parser's error when it is
/// not JSON, a format error when it is not an object, else what its entries
/// give (see [`secrets_from_stored`]).
pub fn secrets_from_file_text(raw: &str) -> (r: Result<SecretMap, String>)
    ensures
        match spec_json_value(raw@) {
            None => r matches Err(e) && e@ == spec_json_error(raw@),
            Some(JsonValue::Object(entries)) => match stored_secrets(stored_entries(entries@)) {
                Ok(m) => r matches Ok(s) && s@ == m,
                Err(e) => r matches Err(x) && x@ == e,
            },
            Some(_) => r matches Err(e) && e@ == "Invalid fallback secret file format"@,
        },
{
    let value = match parse_json(raw) {
        Ok(v) => v,
        Err(e) => return Err(e),
    };
    match value {
        JsonValue::Object(members) => {
            let mut entries: Vec<(String, Option<String>)> = Vec::new();
            let mut i: usize = 0;
            while i < members.len()
                invariant
                    i <= members@.len(),
                    entries@ == stored_entries(members@.take(i as int)),
                decreases members@.len() - i,
            {
                let text = match &members[i].1 {
                    JsonValue::Str(t) => Some(t.clone()),
                    _ => None,
                };
                entries.push((members[i].0.clone(), text));
                proof {
                    assert(stored_entries(members@.take(i + 1)) =~= stored_entries(members@.take(i as int)).push(
                        stored_entry(members@[i as int]),
                    ));
                }
                i = i + 1;
            }
            assert(members@.take(members@.len() as int) =~= members@);
            secrets_from_stored(&entries)
        },
        _ => Err("Invalid fallback secret file format".to_string()),
    }
}

} // verus!
