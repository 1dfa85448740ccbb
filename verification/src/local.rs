//! Configuration from the process environment.
//!
//! The caller reads the environment and hands over its variables as pairs of
//! key and value, in the order in which it found them. A variable counts when
//! its key carries the application's prefix; what is left of the key, in lower
//! case, names the field that the value is for.

use vstd::prelude::*;
use vstd::string::StringExecFns;
use vstd::utf8::{encode_utf8, encode_utf8_decode_utf8};
use crate::conf::{Conf, ConfView};
use crate::error::{ConfigError, Fault, Field};
use crate::number::{parse_port, port_value};

verus! {

/// Pairs of key and value, or of field name and value, as plain texts.
pub type Pairs = Seq<(Seq<char>, Seq<char>)>;

/// One optional value for each field, in the order of declaration.
pub type Slots = Seq<Option<Seq<char>>>;

/// What a list of pairs of texts holds.
pub open spec fn pairs_view(pairs: Seq<(String, String)>) -> Pairs {
    Seq::new(pairs.len(), |i: int| (pairs[i].0@, pairs[i].1@))
}

/// An outcome with the record, if there is one, as plain values.
pub open spec fn outcome_view(outcome: Result<Conf, ConfigError>) -> Result<ConfView, ConfigError> {
    match outcome {
        Ok(conf) => Ok(conf@),
        Err(error) => Err(error),
    }
}

/// The application name in upper case, as `str::to_uppercase` gives it.
pub uninterp spec fn uppercase(text: Seq<char>) -> Seq<char>;

/// The field name that `envy` reads from a key that starts with the prefix.
pub uninterp spec fn field_name(prefix: Seq<char>, key: Seq<char>) -> Seq<char>;

/// Calls `str::to_uppercase` of the standard library. Trusted: the result is
/// the upper case of the argument, a function of the argument's characters.
#[verifier::external_body]
fn to_uppercase(text: &str) -> (upper: String)
    ensures
        upper@ == uppercase(text@),
{
    text.to_uppercase()
}

/// Calls `envy::Prefixed::from_iter` on the one variable with this key, with
/// an empty value, and takes the key of the entry that comes out, if one does.
/// Trusted: `envy` lets an entry out exactly when the key starts with the
/// prefix, and the name that it gives the entry is a function of the two
/// texts. (It takes the prefix off, as often as it leads the key, and puts the
/// rest in lower case.)
#[verifier::external_body]
fn strip_key(prefix: &str, key: &str) -> (name: Option<String>)
    ensures
        name.is_some() <==> prefix@.is_prefix_of(key@),
        name matches Some(text) ==> text@ == field_name(prefix@, key@),
{
    let variable = std::iter::once((key.to_string(), String::new()));
    let read: Result<std::collections::BTreeMap<String, String>, envy::Error> =
        envy::prefixed(prefix).from_iter(variable);
    match read {
        Ok(entries) => entries.into_keys().next(),
        Err(_) => None,
    }
}

/// Says whether two texts hold the same characters.
pub fn same_text(left: &str, right: &str) -> (same: bool)
    ensures
        same == (left@ == right@),
{
    let l = left.as_bytes();
    let r = right.as_bytes();
    proof {
        encode_utf8_decode_utf8(left@);
        encode_utf8_decode_utf8(right@);
    }
    if l.len() != r.len() {
        return false;
    }
    let mut i: usize = 0;
    while i < l.len()
        invariant
            i <= l.len(),
            l@.len() == r@.len(),
            l@ == encode_utf8(left@),
            r@ == encode_utf8(right@),
            forall|j: int| 0 <= j < i ==> l@[j] == r@[j],
        decreases l.len() - i,
    {
        if l[i] != r[i] {
            return false;
        }
        i = i + 1;
    }
    assert(l@ =~= r@);
    true
}

/// The prefix of an application's variables: its name in upper case, then an
/// underscore.
pub open spec fn prefix_of(app_name: Seq<char>) -> Seq<char> {
    uppercase(app_name).push('_')
}

/// Gives the prefix that the variables of an application carry.
pub fn env_prefix(app_name: &str) -> (prefix: String)
    ensures
        prefix@ == prefix_of(app_name@),
{
    proof {
        reveal_strlit("_");
    }
    to_uppercase(app_name).concat("_")
}

/// The variables that count under a prefix, each with its field name in place
/// of its key, in the order of the variables.
pub open spec fn entries(prefix: Seq<char>, vars: Pairs) -> Pairs
    decreases vars.len(),
{
    if vars.len() == 0 {
        Seq::empty()
    } else {
        let before = entries(prefix, vars.drop_last());
        if prefix.is_prefix_of(vars.last().0) {
            before.push((field_name(prefix, vars.last().0), vars.last().1))
        } else {
            before
        }
    }
}

/// Picks the variables that carry the prefix and names each by its field.
pub fn prefixed_fields(prefix: &str, vars: &Vec<(String, String)>) -> (fields: Vec<(String, String)>)
    ensures
        pairs_view(fields@) == entries(prefix@, pairs_view(vars@)),
{
    let ghost all = pairs_view(vars@);
    let mut fields: Vec<(String, String)> = Vec::new();
    let mut i: usize = 0;
    while i < vars.len()
        invariant
            i <= vars.len(),
            all == pairs_view(vars@),
            pairs_view(fields@) == entries(prefix@, all.take(i as int)),
        decreases vars.len() - i,
    {
        assert(all.take(i + 1).drop_last() =~= all.take(i as int));
        match strip_key(prefix, vars[i].0.as_str()) {
            Some(name) => {
                fields.push((name, vars[i].1.clone()));
            },
            None => {},
        }
        i = i + 1;
    }
    assert(all.take(i as int) =~= all);
    fields
}

/// The field that a name stands for, if it is the name of one.
pub open spec fn field_of(name: Seq<char>) -> Option<Field> {
    if name == Field::PgDbPort.name() {
        Some(Field::PgDbPort)
    } else if name == Field::PgDbHost.name() {
        Some(Field::PgDbHost)
    } else if name == Field::PgDbName.name() {
        Some(Field::PgDbName)
    } else if name == Field::PgDbUsername.name() {
        Some(Field::PgDbUsername)
    } else if name == Field::PgDbPassword.name() {
        Some(Field::PgDbPassword)
    } else if name == Field::Port.name() {
        Some(Field::Port)
    } else if name == Field::Host.name() {
        Some(Field::Host)
    } else {
        None
    }
}

/// Finds the field that a name stands for.
pub fn field_named(name: &str) -> (field: Option<Field>)
    ensures
        field == field_of(name@),
{
    if same_text(name, Field::PgDbPort.as_str()) {
        Some(Field::PgDbPort)
    } else if same_text(name, Field::PgDbHost.as_str()) {
        Some(Field::PgDbHost)
    } else if same_text(name, Field::PgDbName.as_str()) {
        Some(Field::PgDbName)
    } else if same_text(name, Field::PgDbUsername.as_str()) {
        Some(Field::PgDbUsername)
    } else if same_text(name, Field::PgDbPassword.as_str()) {
        Some(Field::PgDbPassword)
    } else if same_text(name, Field::Port.as_str()) {
        Some(Field::Port)
    } else if same_text(name, Field::Host.as_str()) {
        Some(Field::Host)
    } else {
        None
    }
}

/// The error that says what is wrong with a field.
pub open spec fn parse_error(field: Field, fault: Fault) -> ConfigError {
    ConfigError::ConfigParseError { field, fault }
}

/// The slots before any entry is taken: all are empty.
pub open spec fn no_slots() -> Slots {
    Seq::new(7, |i: int| None)
}

/// Takes one entry into the slots. A name that is no field's is passed over.
/// A field that has its value already is a duplicate, whatever the second
/// value; a port that is no number is malformed.
pub open spec fn accept(slots: Slots, name: Seq<char>, value: Seq<char>) -> Result<Slots, ConfigError> {
    match field_of(name) {
        None => Ok(slots),
        Some(field) => if slots[field.index()].is_some() {
            Err(parse_error(field, Fault::Duplicate))
        } else if field == Field::Port && port_value(value).is_none() {
            Err(parse_error(field, Fault::Malformed))
        } else {
            Ok(slots.update(field.index(), Some(value)))
        },
    }
}

/// Takes the entries in their order, up to the first that is refused.
pub open spec fn scan(fields: Pairs) -> Result<Slots, ConfigError>
    decreases fields.len(),
{
    if fields.len() == 0 {
        Ok(no_slots())
    } else {
        match scan(fields.drop_last()) {
            Ok(slots) => accept(slots, fields.last().0, fields.last().1),
            Err(error) => Err(error),
        }
    }
}

/// The first field, in the order of declaration, that has no value.
pub open spec fn first_missing(slots: Slots) -> Option<Field> {
    if slots[Field::PgDbPort.index()].is_none() {
        Some(Field::PgDbPort)
    } else if slots[Field::PgDbHost.index()].is_none() {
        Some(Field::PgDbHost)
    } else if slots[Field::PgDbName.index()].is_none() {
        Some(Field::PgDbName)
    } else if slots[Field::PgDbUsername.index()].is_none() {
        Some(Field::PgDbUsername)
    } else if slots[Field::PgDbPassword.index()].is_none() {
        Some(Field::PgDbPassword)
    } else if slots[Field::Port.index()].is_none() {
        Some(Field::Port)
    } else if slots[Field::Host.index()].is_none() {
        Some(Field::Host)
    } else {
        None
    }
}

/// The record that full slots make, or the first field that is missing.
pub open spec fn complete(slots: Slots) -> Result<ConfView, ConfigError> {
    match first_missing(slots) {
        Some(field) => Err(parse_error(field, Fault::Missing)),
        None => Ok(
            ConfView {
                pg_db_port: slots[Field::PgDbPort.index()].unwrap(),
                pg_db_host: slots[Field::PgDbHost.index()].unwrap(),
                pg_db_name: slots[Field::PgDbName.index()].unwrap(),
                pg_db_username: slots[Field::PgDbUsername.index()].unwrap(),
                pg_db_password: slots[Field::PgDbPassword.index()].unwrap(),
                port: port_value(slots[Field::Port.index()].unwrap()).unwrap(),
                host: slots[Field::Host.index()].unwrap(),
            },
        ),
    }
}

/// What a list of named values resolves to.
pub open spec fn resolve(fields: Pairs) -> Result<ConfView, ConfigError> {
    match scan(fields) {
        Ok(slots) => complete(slots),
        Err(error) => Err(error),
    }
}

/// Once an entry is refused, the entries after it change nothing.
pub proof fn lemma_refusal_stays(fields: Pairs, k: int)
    requires
        0 <= k <= fields.len(),
        scan(fields.take(k)).is_err(),
    ensures
        scan(fields) == scan(fields.take(k)),
    decreases fields.len() - k,
{
    if k == fields.len() {
        assert(fields.take(k) =~= fields);
    } else {
        assert(fields.take(k + 1).drop_last() =~= fields.take(k));
        lemma_refusal_stays(fields, k + 1);
    }
}

/// What an optional text holds.
pub open spec fn text_view(text: Option<String>) -> Option<Seq<char>> {
    match text {
        Some(t) => Some(t@),
        None => None,
    }
}

/// Puts a value into a text field's slot, unless the slot is taken.
fn fill(slot: &mut Option<String>, value: &String, field: Field) -> (done: Result<(), ConfigError>)
    ensures
        match done {
            Ok(_) => old(slot).is_none() && text_view(*final(slot)) == Some(value@),
            Err(error) => old(slot).is_some() && *final(slot) == *old(slot) && error == parse_error(
                field,
                Fault::Duplicate,
            ),
        },
{
    if slot.is_some() {
        return Err(ConfigError::ConfigParseError { field, fault: Fault::Duplicate });
    }
    *slot = Some(value.clone());
    Ok(())
}

/// Puts a port into its slot, unless the slot is taken or the value is no
/// port number.
fn fill_port(slot: &mut Option<u16>, value: &String) -> (done: Result<(), ConfigError>)
    ensures
        match done {
            Ok(_) => old(slot).is_none() && final(slot).is_some() && *final(slot) == port_value(
                value@,
            ),
            Err(error) => *final(slot) == *old(slot) && error == (if old(slot).is_some() {
                parse_error(Field::Port, Fault::Duplicate)
            } else {
                parse_error(Field::Port, Fault::Malformed)
            }) && (old(slot).is_none() ==> port_value(value@).is_none()),
        },
{
    if slot.is_some() {
        return Err(ConfigError::ConfigParseError { field: Field::Port, fault: Fault::Duplicate });
    }
    match parse_port(value.as_str()) {
        Some(port) => {
            *slot = Some(port);
            Ok(())
        },
        None => Err(ConfigError::ConfigParseError { field: Field::Port, fault: Fault::Malformed }),
    }
}

/// Fills a configuration record from named values.
///
/// Every field needs exactly one value, and the port's must be a port number.
/// The entries are taken in their order: the first one that names a field for
/// the second time, or gives the port a value that is no number, is reported.
/// When all are taken, the first field without a value is reported.
pub fn conf_from_fields(fields: &Vec<(String, String)>) -> (outcome: Result<Conf, ConfigError>)
    ensures
        outcome_view(outcome) == resolve(pairs_view(fields@)),
{
    let ghost all = pairs_view(fields@);
    let ghost mut slots: Slots = no_slots();
    let mut pg_db_port: Option<String> = None;
    let mut pg_db_host: Option<String> = None;
    let mut pg_db_name: Option<String> = None;
    let mut pg_db_username: Option<String> = None;
    let mut pg_db_password: Option<String> = None;
    let mut port: Option<u16> = None;
    let mut host: Option<String> = None;
    let mut i: usize = 0;
    while i < fields.len()
        invariant
            i <= fields.len(),
            all == pairs_view(fields@),
            scan(all.take(i as int)) == Ok::<Slots, ConfigError>(slots),
            slots.len() == 7,
            slots[Field::PgDbPort.index()] == text_view(pg_db_port),
            slots[Field::PgDbHost.index()] == text_view(pg_db_host),
            slots[Field::PgDbName.index()] == text_view(pg_db_name),
            slots[Field::PgDbUsername.index()] == text_view(pg_db_username),
            slots[Field::PgDbPassword.index()] == text_view(pg_db_password),
            slots[Field::Port.index()].is_some() == port.is_some(),
            slots[Field::Port.index()].is_some() ==> port_value(
                slots[Field::Port.index()].unwrap(),
            ) == port,
            slots[Field::Host.index()] == text_view(host),
        decreases fields.len() - i,
    {
        let value: &String = &fields[i].1;
        assert(all.take(i + 1).drop_last() =~= all.take(i as int));
        let done = match field_named(fields[i].0.as_str()) {
            None => Ok(()),
            Some(Field::PgDbPort) => fill(&mut pg_db_port, value, Field::PgDbPort),
            Some(Field::PgDbHost) => fill(&mut pg_db_host, value, Field::PgDbHost),
            Some(Field::PgDbName) => fill(&mut pg_db_name, value, Field::PgDbName),
            Some(Field::PgDbUsername) => fill(&mut pg_db_username, value, Field::PgDbUsername),
            Some(Field::PgDbPassword) => fill(&mut pg_db_password, value, Field::PgDbPassword),
            Some(Field::Port) => fill_port(&mut port, value),
            Some(Field::Host) => fill(&mut host, value, Field::Host),
        };
        match done {
            Err(error) => {
                proof {
                    lemma_refusal_stays(all, i + 1);
                }
                return Err(error);
            },
            Ok(_) => {},
        }
        proof {
            slots = accept(slots, fields[i as int].0@, value@).unwrap();
        }
        i = i + 1;
    }
    assert(all.take(i as int) =~= all);
    let pg_db_port = match pg_db_port {
        Some(text) => text,
        None => {
            return Err(ConfigError::ConfigParseError { field: Field::PgDbPort, fault: Fault::Missing });
        },
    };
    let pg_db_host = match pg_db_host {
        Some(text) => text,
        None => {
            return Err(ConfigError::ConfigParseError { field: Field::PgDbHost, fault: Fault::Missing });
        },
    };
    let pg_db_name = match pg_db_name {
        Some(text) => text,
        None => {
            return Err(ConfigError::ConfigParseError { field: Field::PgDbName, fault: Fault::Missing });
        },
    };
    let pg_db_username = match pg_db_username {
        Some(text) => text,
        None => {
            return Err(
                ConfigError::ConfigParseError { field: Field::PgDbUsername, fault: Fault::Missing },
            );
        },
    };
    let pg_db_password = match pg_db_password {
        Some(text) => text,
        None => {
            return Err(
                ConfigError::ConfigParseError { field: Field::PgDbPassword, fault: Fault::Missing },
            );
        },
    };
    let port = match port {
        Some(number) => number,
        None => {
            return Err(ConfigError::ConfigParseError { field: Field::Port, fault: Fault::Missing });
        },
    };
    let host = match host {
        Some(text) => text,
        None => {
            return Err(ConfigError::ConfigParseError { field: Field::Host, fault: Fault::Missing });
        },
    };
    Ok(Conf { pg_db_port, pg_db_host, pg_db_name, pg_db_username, pg_db_password, port, host })
}


/// The entry at a place gives a value to a field.
pub open spec fn names(fields: Pairs, i: int, field: Field) -> bool {
    0 <= i < fields.len() && field_of(fields[i].0) == Some(field)
}

/// No entry gives the field a value.
pub open spec fn absent(fields: Pairs, field: Field) -> bool {
    forall|i: int| !names(fields, i, field)
}

/// The entry at a place, and no other, gives the field a value.
pub open spec fn once_at(fields: Pairs, field: Field, i: int) -> bool {
    names(fields, i, field) && forall|j: int| names(fields, j, field) ==> j == i
}

/// Exactly one entry gives the field a value.
pub open spec fn once(fields: Pairs, field: Field) -> bool {
    exists|i: int| once_at(fields, field, i)
}

/// The value that an entry gives the field.
pub open spec fn value_of(fields: Pairs, field: Field) -> Seq<char> {
    fields[choose|i: int| names(fields, i, field)].1
}

/// A slot is empty when no entry names its field; else it holds the value of
/// the one entry that does, and for the port that value is a number.
pub open spec fn slot_sound(fields: Pairs, slots: Slots, field: Field) -> bool {
    match slots[field.index()] {
        None => absent(fields, field),
        Some(value) => once(fields, field) && value_of(fields, field) == value && (field
            == Field::Port ==> port_value(value).is_some()),
    }
}

/// The value of a field that one entry names is that entry's value.
proof fn lemma_value_of_once(fields: Pairs, field: Field, i: int)
    requires
        once_at(fields, field, i),
    ensures
        once(fields, field),
        value_of(fields, field) == fields[i].1,
{
}

/// How the entries that name a field change when one entry is added.
proof fn lemma_one_more(fields: Pairs, field: Field)
    requires
        fields.len() > 0,
    ensures
        absent(fields.drop_last(), field) && field_of(fields.last().0) != Some(field) ==> absent(
            fields,
            field,
        ),
        absent(fields.drop_last(), field) && field_of(fields.last().0) == Some(field) ==> once_at(
            fields,
            field,
            fields.len() - 1,
        ),
        forall|i: int|
            once_at(fields.drop_last(), field, i) && field_of(fields.last().0) != Some(field)
                ==> #[trigger] once_at(fields, field, i),
        absent(fields, field) ==> absent(fields.drop_last(), field),
        forall|i: int|
            #[trigger] once_at(fields, field, i) ==> (if i == fields.len() - 1 {
                absent(fields.drop_last(), field)
            } else {
                once_at(fields.drop_last(), field, i)
            }),
{
    let init = fields.drop_last();
    assert forall|j: int|
        names(init, j, field) == (names(fields, j, field) && j != fields.len() - 1) by {}
}

/// What the slots hold once every entry was taken: each slot is sound, and a
/// refusal is always a parse error.
pub proof fn lemma_scan_sound(fields: Pairs)
    ensures
        match scan(fields) {
            Ok(slots) => slots.len() == 7 && forall|field: Field| #[trigger]
                slot_sound(fields, slots, field),
            Err(error) => error is ConfigParseError,
        },
    decreases fields.len(),
{
    if fields.len() > 0 {
        let init = fields.drop_last();
        lemma_scan_sound(init);
        if let Ok(before) = scan(init) {
            if let Ok(slots) = accept(before, fields.last().0, fields.last().1) {
                assert forall|field: Field| #[trigger] slot_sound(fields, slots, field) by {
                    assert(slot_sound(init, before, field));
                    lemma_one_more(fields, field);
                    if field_of(fields.last().0) == Some(field) {
                        lemma_value_of_once(fields, field, fields.len() - 1);
                    } else if before[field.index()].is_some() {
                        let i = choose|i: int| once_at(init, field, i);
                        lemma_value_of_once(init, field, i);
                        lemma_value_of_once(fields, field, i);
                    }
                }
            }
        }
    }
}

/// Entries that name no field twice, and give the port a number if they name
/// it, are all taken.
pub proof fn lemma_scan_takes_all(fields: Pairs)
    requires
        forall|field: Field| absent(fields, field) || #[trigger] once(fields, field),
        once(fields, Field::Port) ==> port_value(value_of(fields, Field::Port)).is_some(),
    ensures
        scan(fields).is_ok(),
    decreases fields.len(),
{
    if fields.len() > 0 {
        let init = fields.drop_last();
        assert forall|field: Field| absent(init, field) || #[trigger] once(init, field) by {
            lemma_one_more(fields, field);
            assert(absent(fields, field) || once(fields, field));
        }
        if once(init, Field::Port) {
            let i = choose|i: int| once_at(init, Field::Port, i);
            lemma_one_more(fields, Field::Port);
            assert(once(fields, Field::Port));
            lemma_value_of_once(fields, Field::Port, i);
            lemma_value_of_once(init, Field::Port, i);
        }
        lemma_scan_takes_all(init);
        lemma_scan_sound(init);
        if let Some(field) = field_of(fields.last().0) {
            let last = fields.len() - 1;
            assert(slot_sound(init, scan(init).unwrap(), field));
            assert(names(fields, last, field));
            assert(once(fields, field));
            lemma_one_more(fields, field);
            lemma_value_of_once(fields, field, last);
        }
    }
}

/// Entries that give every field exactly one value, the port a number,
/// resolve to the record that holds exactly these values.
pub proof fn law_values_round_trip(fields: Pairs)
    requires
        forall|field: Field| #[trigger] once(fields, field),
        port_value(value_of(fields, Field::Port)).is_some(),
    ensures
        resolve(fields) == Ok::<ConfView, ConfigError>(
            ConfView {
                pg_db_port: value_of(fields, Field::PgDbPort),
                pg_db_host: value_of(fields, Field::PgDbHost),
                pg_db_name: value_of(fields, Field::PgDbName),
                pg_db_username: value_of(fields, Field::PgDbUsername),
                pg_db_password: value_of(fields, Field::PgDbPassword),
                port: port_value(value_of(fields, Field::Port)).unwrap(),
                host: value_of(fields, Field::Host),
            },
        ),
{
    lemma_scan_takes_all(fields);
    lemma_scan_sound(fields);
    let slots = scan(fields).unwrap();
    assert forall|field: Field| #[trigger]
        slots[field.index()] == Some(value_of(fields, field)) by {
        assert(slot_sound(fields, slots, field));
        assert(once(fields, field));
    }
}

/// Entries that leave a field without a value never resolve to a record: the
/// outcome is a parse error. Where that field is all that is wrong, the error
/// names it as missing.
pub proof fn law_missing_field_fails(fields: Pairs, missing: Field)
    requires
        absent(fields, missing),
    ensures
        resolve(fields) matches Err(error) && error is ConfigParseError,
        (forall|field: Field| field != missing ==> #[trigger] once(fields, field)) && (missing
            != Field::Port ==> port_value(value_of(fields, Field::Port)).is_some()) ==> resolve(
            fields,
        ) == Err::<ConfView, ConfigError>(parse_error(missing, Fault::Missing)),
{
    lemma_scan_sound(fields);
    if let Ok(slots) = scan(fields) {
        assert(slot_sound(fields, slots, missing));
    }
    if (forall|field: Field| field != missing ==> #[trigger] once(fields, field)) && (missing
        != Field::Port ==> port_value(value_of(fields, Field::Port)).is_some()) {
        assert forall|field: Field| absent(fields, field) || #[trigger] once(fields, field) by {}
        lemma_scan_takes_all(fields);
        let slots = scan(fields).unwrap();
        assert forall|field: Field| field != missing implies (#[trigger] slots[field.index()])
            .is_some() by {
            assert(slot_sound(fields, slots, field));
            assert(once(fields, field));
        }
    }
}

/// What the variables of an environment resolve to under a prefix.
pub open spec fn load_result(prefix: Seq<char>, vars: Pairs) -> Result<ConfView, ConfigError> {
    resolve(entries(prefix, vars))
}

/// A variable whose key does not start with the prefix has no part in the
/// outcome: without it the environment resolves to the same.
pub proof fn law_other_variables_do_not_count(prefix: Seq<char>, vars: Pairs, i: int)
    requires
        0 <= i < vars.len(),
        !prefix.is_prefix_of(vars[i].0),
    ensures
        entries(prefix, vars.remove(i)) == entries(prefix, vars),
        load_result(prefix, vars.remove(i)) == load_result(prefix, vars),
    decreases vars.len(),
{
    if i == vars.len() - 1 {
        assert(vars.remove(i) =~= vars.drop_last());
    } else {
        law_other_variables_do_not_count(prefix, vars.drop_last(), i);
        assert(vars.remove(i).drop_last() =~= vars.drop_last().remove(i));
        assert(vars.remove(i).last() == vars.last());
    }
}

/// Resolves the configuration from the variables of the environment that
/// carry the prefix.
pub fn load(prefix: &str, vars: &Vec<(String, String)>) -> (outcome: Result<Conf, ConfigError>)
    ensures
        outcome_view(outcome) == load_result(prefix@, pairs_view(vars@)),
{
    let fields = prefixed_fields(prefix, vars);
    conf_from_fields(&fields)
}

} // verus!
