//! Lays the configuration of the user over the default one, and checks the
//! result.

use rustc_hash::FxHashMap;
use std::str::FromStr;
use vstd::prelude::*;

use crate::actor::wm_controller::WmCommand;
use crate::config::partial::{
    nothing_is_missing_over_complete_settings, prefer, preferred, SettingsPartial,
    ValidationError,
};
use crate::config::{Config, Hotkey, Settings, WindowRule};

verus! {

/// [`rustc_hash::FxBuildHasher`], which makes the hash maps of the
/// configuration.
#[verifier::external_type_specification]
#[verifier::external_body]
pub struct ExFxBuildHasher(rustc_hash::FxBuildHasher);

/// What a key is bound to: a command, or nothing on purpose.
#[derive(Debug)]
pub enum WmCommandOrDisable {
    WmCommand(WmCommand),
    Disable(Disabled),
}

/// The word that takes a binding away.
#[derive(Debug, Clone, Copy, PartialEq, Eq, Structural)]
pub enum Disabled {
    Disable,
}

/// A configuration that names only some things.
#[derive(Debug)]
pub struct ConfigPartial {
    pub settings: SettingsPartial,
    pub window_rules: Option<Vec<WindowRule>>,
    pub keys: Option<FxHashMap<String, WmCommandOrDisable>>,
}

/// The keys of a map with what they are bound to.
pub uninterp spec fn bindings(map: FxHashMap<String, WmCommandOrDisable>) -> Map<
    Seq<char>,
    WmCommandOrDisable,
>;

/// No keys at all.
pub open spec fn unbound() -> Map<Seq<char>, WmCommandOrDisable> {
    Map::empty()
}

/// `FxHashMap::default`: a map without keys.
#[verifier::external_body]
fn no_keys() -> (map: FxHashMap<String, WmCommandOrDisable>)
    ensures
        bindings(map) == unbound(),
{
    FxHashMap::default()
}

/// `FxHashMap::extend` by another map: its keys are added, and take the place of
/// equal ones.
#[verifier::external_body]
fn extend_keys(
    map: &mut FxHashMap<String, WmCommandOrDisable>,
    more: FxHashMap<String, WmCommandOrDisable>,
)
    ensures
        bindings(*final(map)) == bindings(*old(map)).union_prefer_right(bindings(more)),
{
    map.extend(more);
}

/// `FxHashMap::into_iter`, gathered: every key once with what it is bound to, in
/// some order.
#[verifier::external_body]
fn key_entries(map: FxHashMap<String, WmCommandOrDisable>) -> (entries: Vec<
    (String, WmCommandOrDisable),
>)
    ensures
        walks(texts(entries@), bindings(map)),
{
    map.into_iter().collect()
}

/// The entries of a list, with the characters of their keys.
pub open spec fn texts(entries: Seq<(String, WmCommandOrDisable)>) -> Seq<
    (Seq<char>, WmCommandOrDisable),
> {
    entries.map_values(|e: (String, WmCommandOrDisable)| (e.0@, e.1))
}

/// Whether `order` holds every key of `map` once, with what it is bound to.
pub open spec fn walks(
    order: Seq<(Seq<char>, WmCommandOrDisable)>,
    map: Map<Seq<char>, WmCommandOrDisable>,
) -> bool {
    &&& forall|i: int, j: int|
        0 <= i < j < order.len() ==> (#[trigger] order[i]).0 != (#[trigger] order[j]).0
    &&& forall|i: int|
        0 <= i < order.len() ==> map.contains_key((#[trigger] order[i]).0) && map[order[i].0]
            == order[i].1
    &&& forall|key: Seq<char>| #[trigger]
        map.contains_key(key) ==> exists|i: int| 0 <= i < order.len() && (#[trigger] order[i]).0 == key
}

/// How a hotkey is written, in the words of the hotkey crate; nothing where the
/// text is no hotkey.
pub uninterp spec fn hotkey_text(text: Seq<char>) -> Option<Seq<char>>;

/// `Hotkey::from_str`, with the `Display` form of what it makes of the text. That
/// form is a hotkey too, and is written as it is.
#[verifier::external_body]
fn parse_hotkey(text: &str) -> (parsed: Option<Hotkey>)
    ensures
        match parsed {
            Some(hotkey) => {
                &&& hotkey_text(text@) == Some(hotkey.text@)
                &&& hotkey_text(hotkey.text@) == Some(hotkey.text@)
            },
            None => hotkey_text(text@) is None,
        },
{
    match livesplit_hotkey::Hotkey::from_str(text) {
        Ok(hotkey) => Some(Hotkey { text: hotkey.to_string() }),
        Err(()) => None,
    }
}

/// A part of a text: from one byte up to another.
#[derive(Clone, Copy, PartialEq, Eq, Structural, Debug)]
pub struct Span {
    pub start: usize,
    pub end: usize,
}

/// What is wrong with a configuration, and where.
#[derive(Debug)]
pub struct SpannedError {
    pub message: String,
    pub span: Option<Span>,
}

/// A binding on its way: the key, what it is bound to, and the hotkey that
/// the key stands for, if it was asked for and the key is one.
#[derive(Debug)]
pub struct ParsedBinding {
    pub key: String,
    pub command: WmCommandOrDisable,
    pub hotkey: Option<Hotkey>,
}

impl ParsedBinding {
    /// Whether the binding cannot be used: there is a command, but its key is no
    /// hotkey.
    pub open spec fn unusable(self) -> bool {
        self.command is WmCommand && self.hotkey is None
    }
}

/// The bindings that have a command, in their order.
pub open spec fn commands(bindings: Seq<ParsedBinding>) -> Seq<(Hotkey, WmCommand)>
    decreases bindings.len(),
{
    if bindings.len() == 0 {
        seq![]
    } else {
        let front = commands(bindings.drop_last());
        match (bindings.last().command, bindings.last().hotkey) {
            (WmCommandOrDisable::WmCommand(command), Some(hotkey)) => front.push(
                (hotkey, command),
            ),
            _ => front,
        }
    }
}

/// The report of a key that is no hotkey.
pub open spec fn hotkey_error(key: Seq<char>) -> Seq<char> {
    "Could not parse hotkey: "@ + key
}

/// Keeps the bindings that have a command. The first one whose key is no
/// hotkey is an error.
pub fn collect_keys(parsed: Vec<ParsedBinding>) -> (result: Result<
    Vec<(Hotkey, WmCommand)>,
    SpannedError,
>)
    ensures
        match result {
            Ok(keys) => {
                &&& forall|i: int| 0 <= i < parsed@.len() ==> !(#[trigger] parsed@[i]).unusable()
                &&& keys@ == commands(parsed@)
            },
            Err(error) => {
                &&& error.span is None
                &&& exists|i: int|
                    {
                        &&& 0 <= i < parsed@.len()
                        &&& (#[trigger] parsed@[i]).unusable()
                        &&& error.message@ == hotkey_error(parsed@[i].key@)
                        &&& forall|j: int| 0 <= j < i ==> !(#[trigger] parsed@[j]).unusable()
                    }
            },
        },
{
    let ghost all = parsed@;
    let mut rest = parsed;
    let ghost mut done: int = 0;
    let mut keys: Vec<(Hotkey, WmCommand)> = Vec::new();
    assert(all.take(0) =~= seq![]);
    assert(rest@ =~= all.skip(0));
    while rest.len() > 0
        invariant
            all == parsed@,
            0 <= done,
            done + rest@.len() == all.len(),
            rest@ == all.skip(done),
            keys@ == commands(all.take(done)),
            forall|j: int| 0 <= j < done ==> !(#[trigger] all[j]).unusable(),
        decreases rest@.len(),
    {
        let binding = rest.remove(0);
        assert(binding == all[done]);
        proof {
            assert(all.take(done + 1).drop_last() =~= all.take(done));
        }
        match (binding.command, binding.hotkey) {
            (WmCommandOrDisable::WmCommand(command), Some(hotkey)) => {
                keys.push((hotkey, command));
            },
            (WmCommandOrDisable::WmCommand(_), None) => {
                assert(all[done].unusable());
                return Err(
                    SpannedError {
                        message: "Could not parse hotkey: ".to_owned().concat(binding.key.as_str()),
                        span: None,
                    },
                );
            },
            (WmCommandOrDisable::Disable(_), _) => {},
        }
        proof {
            done = done + 1;
            assert(rest@ =~= all.skip(done));
        }
    }
    assert(all.take(done) =~= all);
    Ok(keys)
}

/// Asks for the hotkeys of the bindings that have a command.
fn parse_keys(entries: Vec<(String, WmCommandOrDisable)>) -> (parsed: Vec<ParsedBinding>)
    ensures
        parsed@.len() == entries@.len(),
        forall|i: int| #![trigger parsed@[i]] 0 <= i < entries@.len() ==> parsed_from(parsed@[i], entries@[i]),
{
    let ghost all = entries@;
    let mut rest = entries;
    let mut parsed: Vec<ParsedBinding> = Vec::new();
    assert(rest@ =~= all.skip(0));
    while rest.len() > 0
        invariant
            all == entries@,
            parsed@.len() + rest@.len() == all.len(),
            rest@ == all.skip(parsed@.len() as int),
            forall|i: int| #![trigger parsed@[i]] 0 <= i < parsed@.len() ==> parsed_from(parsed@[i], all[i]),
        decreases rest@.len(),
    {
        let ghost n = parsed@.len() as int;
        let (key, command) = rest.remove(0);
        assert((key, command) == all[n]);
        let hotkey = match &command {
            WmCommandOrDisable::WmCommand(_) => parse_hotkey(key.as_str()),
            WmCommandOrDisable::Disable(_) => None,
        };
        parsed.push(ParsedBinding { key, command, hotkey });
        assert(rest@ =~= all.skip(n + 1));
    }
    parsed
}

/// Whether a binding is what becomes of an entry.
pub open spec fn parsed_from(binding: ParsedBinding, entry: (String, WmCommandOrDisable)) -> bool {
    &&& binding.key@ == entry.0@
    &&& binding.command == entry.1
    &&& entry.1 is WmCommand ==> match binding.hotkey {
        Some(hotkey) => {
            &&& hotkey_text(entry.0@) == Some(hotkey.text@)
            &&& is_canonical(hotkey)
        },
        None => hotkey_text(entry.0@) is None,
    }
}

/// Whether `key` has a command in `map`, but is no hotkey.
pub open spec fn bad_key(map: Map<Seq<char>, WmCommandOrDisable>, key: Seq<char>) -> bool {
    map.contains_key(key) && map[key] is WmCommand && hotkey_text(key) is None
}

/// The bindings of `order` that have a command: how each hotkey is
/// written, and the command.
pub open spec fn bound(order: Seq<(Seq<char>, WmCommandOrDisable)>) -> Seq<(Seq<char>, WmCommand)>
    decreases order.len(),
{
    if order.len() == 0 {
        seq![]
    } else {
        let front = bound(order.drop_last());
        match order.last().1 {
            WmCommandOrDisable::WmCommand(command) => front.push(
                (hotkey_text(order.last().0)->0, command),
            ),
            WmCommandOrDisable::Disable(_) => front,
        }
    }
}

/// The hotkeys of a list as they are written, with their commands.
pub open spec fn written(keys: Seq<(Hotkey, WmCommand)>) -> Seq<(Seq<char>, WmCommand)> {
    keys.map_values(|k: (Hotkey, WmCommand)| (k.0.text@, k.1))
}

/// Whether a hotkey is written in the form that all others stand for: reading it
/// changes nothing.
pub open spec fn is_canonical(hotkey: Hotkey) -> bool {
    hotkey_text(hotkey.text@) == Some(hotkey.text@)
}

/// Whether `result` is what becomes of settings, rules and bindings: a complete
/// configuration with all values in range, whose keys are those of the bindings
/// that have a command, in some order; or an error. A key that is no hotkey is
/// reported before a missing setting.
pub open spec fn validates(
    result: Result<Config, SpannedError>,
    settings: SettingsPartial,
    window_rules: Option<Vec<WindowRule>>,
    map: Map<Seq<char>, WmCommandOrDisable>,
) -> bool {
    match result {
        Ok(config) => {
            &&& forall|key: Seq<char>| !(#[trigger] bad_key(map, key))
            &&& settings.first_missing() is None
            &&& settings.complete().becomes(config.settings)
            &&& config.settings.experimental.scroll.in_range()
            &&& config.window_rules@ == (match window_rules {
                Some(rules) => rules@,
                None => seq![],
            })
            &&& exists|order: Seq<(Seq<char>, WmCommandOrDisable)>| #[trigger]
                walks(order, map) && written(config.keys@) == bound(order)
            &&& forall|i: int|
                0 <= i < config.keys@.len() ==> is_canonical((#[trigger] config.keys@[i]).0)
        },
        Err(error) => {
            &&& error.span is None
            &&& if exists|key: Seq<char>| bad_key(map, key) {
                exists|key: Seq<char>| #[trigger]
                    bad_key(map, key) && error.message@ == hotkey_error(key)
            } else {
                settings.first_missing() is Some && error.message@ == "missing setting: "@
                    + settings.first_missing()->0
            }
        },
    }
}

/// The bindings of a map that may be missing.
pub open spec fn bindings_of(keys: Option<FxHashMap<String, WmCommandOrDisable>>) -> Map<
    Seq<char>,
    WmCommandOrDisable,
> {
    match keys {
        Some(map) => bindings(map),
        None => unbound(),
    }
}

/// Whether the bindings of `low` are kept below those of `high`: they are,
/// unless `high` has bindings of its own and does not want the default ones.
pub open spec fn keeps_default_keys(high: ConfigPartial, default_keys: bool) -> bool {
    high.keys is None || (match high.settings.default_keys {
        Some(wanted) => wanted,
        None => default_keys,
    })
}

/// The bindings of `high` over those of `low`.
pub open spec fn merged_keys(low: ConfigPartial, high: ConfigPartial, default_keys: bool) -> Map<
    Seq<char>,
    WmCommandOrDisable,
> {
    (if keeps_default_keys(high, default_keys) {
        bindings_of(low.keys)
    } else {
        unbound()
    }).union_prefer_right(bindings_of(high.keys))
}

impl ConfigPartial {
    /// Lays `high` over `low`. `default_keys` says whether the default bindings
    /// are wanted where `high` does not.
    pub fn merge(low: ConfigPartial, high: ConfigPartial, default_keys: bool) -> (all: ConfigPartial)
        ensures
            all.settings == SettingsPartial::merged(low.settings, high.settings),
            all.window_rules == preferred(low.window_rules, high.window_rules),
            all.keys is Some,
            bindings_of(all.keys) == merged_keys(low, high, default_keys),
    {
        let wanted = match high.settings.default_keys {
            Some(wanted) => wanted,
            None => default_keys,
        };
        let include_default_keys = high.keys.is_none() || wanted;
        let mut keys = if include_default_keys {
            match low.keys {
                Some(keys) => keys,
                None => no_keys(),
            }
        } else {
            no_keys()
        };
        let more = match high.keys {
            Some(keys) => keys,
            None => no_keys(),
        };
        extend_keys(&mut keys, more);
        ConfigPartial {
            settings: SettingsPartial::merge(low.settings, high.settings),
            window_rules: prefer(low.window_rules, high.window_rules),
            keys: Some(keys),
        }
    }

    /// Makes a complete configuration, or says what is wrong.
    pub fn validate(self) -> (result: Result<Config, SpannedError>)
        ensures
            validates(result, self.settings, self.window_rules, bindings_of(self.keys)),
    {
        let ghost map = bindings_of(self.keys);
        let entries = key_entries(
            match self.keys {
                Some(keys) => keys,
                None => no_keys(),
            },
        );
        let ghost given = entries@;
        let ghost order = texts(entries@);
        assert(walks(order, map));
        let parsed = parse_keys(entries);
        let ghost all = parsed@;
        let keys = match collect_keys(parsed) {
            Ok(keys) => keys,
            Err(error) => {
                proof {
                    let i = choose|i: int|
                        {
                            &&& 0 <= i < all.len()
                            &&& (#[trigger] all[i]).unusable()
                            &&& error.message@ == hotkey_error(all[i].key@)
                            &&& forall|j: int| 0 <= j < i ==> !(#[trigger] all[j]).unusable()
                        };
                    assert(parsed_from(all[i], given[i]));
                    assert(order[i] == (given[i].0@, given[i].1));
                    assert(bad_key(map, order[i].0));
                }
                return Err(error);
            },
        };
        proof {
            assert forall|key: Seq<char>| !(#[trigger] bad_key(map, key)) by {
                if bad_key(map, key) {
                    let i = choose|i: int| 0 <= i < order.len() && (#[trigger] order[i]).0 == key;
                    assert(parsed_from(all[i], given[i]));
                    assert(order[i] == (given[i].0@, given[i].1));
                    assert(all[i].unusable());
                }
            }
            commands_are_bound(all, given);
        }
        let settings = match self.settings.validate() {
            Ok(settings) => settings.validated(),
            Err(error) => {
                return Err(SpannedError { message: error.message(), span: None });
            },
        };
        let window_rules = match self.window_rules {
            Some(rules) => rules,
            None => Vec::new(),
        };
        Ok(Config { settings, window_rules, keys })
    }
}

proof fn commands_are_bound(all: Seq<ParsedBinding>, given: Seq<(String, WmCommandOrDisable)>)
    requires
        all.len() == given.len(),
        forall|i: int| #![trigger all[i]] 0 <= i < given.len() ==> parsed_from(all[i], given[i]),
        forall|i: int| 0 <= i < all.len() ==> !(#[trigger] all[i]).unusable(),
    ensures
        written(commands(all)) == bound(texts(given)),
        forall|i: int|
            0 <= i < commands(all).len() ==> is_canonical((#[trigger] commands(all)[i]).0),
    decreases all.len(),
{
    if all.len() > 0 {
        let front = all.drop_last();
        let given_front = given.drop_last();
        assert forall|i: int| #![trigger front[i]] 0 <= i < given_front.len() implies parsed_from(
            front[i],
            given_front[i],
        ) by {
            assert(parsed_from(all[i], given[i]));
        }
        assert forall|i: int| 0 <= i < front.len() implies !(#[trigger] front[i]).unusable() by {
            assert(!all[i].unusable());
        }
        commands_are_bound(front, given_front);
        let n = all.len() - 1;
        assert(parsed_from(all[n], given[n]));
        assert(!all[n].unusable());
        assert(texts(given).drop_last() =~= texts(given_front));
        assert(texts(given).last() == (given[n].0@, given[n].1));
        match (all[n].command, all[n].hotkey) {
            (WmCommandOrDisable::WmCommand(command), Some(hotkey)) => {
                assert(written(commands(all)) =~= written(commands(front)).push(
                    (hotkey.text@, command),
                ));
            },
            _ => {},
        }
    } else {
        assert(written(commands(all)) =~= bound(texts(given)));
    }
}

impl Config {
    /// Lays the configuration of the user over the default one, and checks the
    /// result. The default configuration says whether default bindings are
    /// wanted.
    pub fn parse(defaults: ConfigPartial, user: ConfigPartial) -> (result: Result<
        Config,
        SpannedError,
    >)
        requires
            defaults.settings.default_keys is Some,
        ensures
            validates(
                result,
                SettingsPartial::merged(defaults.settings, user.settings),
                preferred(defaults.window_rules, user.window_rules),
                merged_keys(defaults, user, defaults.settings.default_keys->0),
            ),
    {
        let default_keys = defaults.settings.default_keys.unwrap();
        ConfigPartial::merge(defaults, user, default_keys).validate()
    }
}

/// Where the user binds no keys, the default bindings are kept as they are.
pub proof fn no_bindings_keep_the_default_ones(
    low: ConfigPartial,
    high: ConfigPartial,
    default_keys: bool,
)
    requires
        high.keys is None,
    ensures
        merged_keys(low, high, default_keys) == bindings_of(low.keys),
{
    assert(merged_keys(low, high, default_keys) =~= bindings_of(low.keys));
}

/// Where the user binds keys and does not want the default bindings, only the
/// user's are left.
pub proof fn unwanted_default_bindings_are_dropped(
    low: ConfigPartial,
    high: ConfigPartial,
    default_keys: bool,
)
    requires
        high.keys is Some,
        high.settings.default_keys == Some(false),
    ensures
        merged_keys(low, high, default_keys) == bindings_of(high.keys),
{
    assert(merged_keys(low, high, default_keys) =~= bindings_of(high.keys));
}

/// What the user binds a key to counts, also where that is nothing; a key that
/// the user does not name keeps its default binding, if those are kept.
pub proof fn the_users_bindings_win(
    low: ConfigPartial,
    high: ConfigPartial,
    default_keys: bool,
    key: Seq<char>,
)
    ensures
        bindings_of(high.keys).contains_key(key) ==> {
            &&& merged_keys(low, high, default_keys).contains_key(key)
            &&& merged_keys(low, high, default_keys)[key] == bindings_of(high.keys)[key]
        },
        !bindings_of(high.keys).contains_key(key) && keeps_default_keys(high, default_keys) ==> {
            &&& merged_keys(low, high, default_keys).contains_key(key) == bindings_of(
                low.keys,
            ).contains_key(key)
            &&& bindings_of(low.keys).contains_key(key) ==> merged_keys(
                low,
                high,
                default_keys,
            )[key] == bindings_of(low.keys)[key]
        },
{
}

/// Whether a binding is one of `map`: its key is bound to the command and
/// written so.
pub open spec fn binding_of(
    map: Map<Seq<char>, WmCommandOrDisable>,
    key: Seq<char>,
    binding: (Seq<char>, WmCommand),
) -> bool {
    &&& map.contains_key(key)
    &&& map[key] == WmCommandOrDisable::WmCommand(binding.1)
    &&& hotkey_text(key) == Some(binding.0)
}

proof fn bound_entries(order: Seq<(Seq<char>, WmCommandOrDisable)>, n: int)
    requires
        0 <= n < bound(order).len(),
        forall|i: int|
            0 <= i < order.len() && (#[trigger] order[i]).1 is WmCommand ==> hotkey_text(order[i].0)
                is Some,
    ensures
        exists|i: int|
            0 <= i < order.len() && (#[trigger] order[i]).1 == WmCommandOrDisable::WmCommand(
                bound(order)[n].1,
            ) && hotkey_text(order[i].0) == Some(bound(order)[n].0),
    decreases order.len(),
{
    let front = order.drop_last();
    if n < bound(front).len() {
        assert forall|i: int| 0 <= i < front.len() && (
        #[trigger] front[i]).1 is WmCommand implies hotkey_text(front[i].0) is Some by {
            assert(order[i].1 is WmCommand);
        }
        bound_entries(front, n);
        let i = choose|i: int|
            0 <= i < front.len() && (#[trigger] front[i]).1 == WmCommandOrDisable::WmCommand(
                bound(front)[n].1,
            ) && hotkey_text(front[i].0) == Some(bound(front)[n].0);
        assert(order[i] == front[i]);
        assert(bound(order)[n] == bound(front)[n]);
    } else {
        let i = order.len() - 1;
        assert(order[i].1 is WmCommand);
        assert(order[i] == order.last());
    }
}

proof fn entries_are_bound(order: Seq<(Seq<char>, WmCommandOrDisable)>, i: int)
    requires
        0 <= i < order.len(),
        order[i].1 is WmCommand,
        hotkey_text(order[i].0) is Some,
    ensures
        bound(order).contains((hotkey_text(order[i].0)->0, order[i].1->WmCommand_0)),
    decreases order.len(),
{
    let front = order.drop_last();
    if i < front.len() {
        entries_are_bound(front, i);
        let binding = (hotkey_text(order[i].0)->0, order[i].1->WmCommand_0);
        let n = choose|n: int| 0 <= n < bound(front).len() && bound(front)[n] == binding;
        assert(bound(order)[n] == binding);
    } else {
        assert(bound(order)[bound(order).len() - 1] == (
            hotkey_text(order[i].0)->0,
            order[i].1->WmCommand_0,
        ));
    }
}

/// The keys of a valid configuration are exactly those that have a command: each
/// of them comes from a binding, and no binding that has a command is lost. A key
/// that is bound to nothing on purpose gives none.
pub proof fn valid_keys_are_those_with_commands(
    config: Config,
    settings: SettingsPartial,
    window_rules: Option<Vec<WindowRule>>,
    map: Map<Seq<char>, WmCommandOrDisable>,
    n: int,
    key: Seq<char>,
)
    requires
        validates(Ok(config), settings, window_rules, map),
    ensures
        0 <= n < config.keys@.len() ==> exists|from: Seq<char>|
            binding_of(map, from, written(config.keys@)[n]),
        map.contains_key(key) && map[key] is WmCommand ==> hotkey_text(key) is Some && written(
            config.keys@,
        ).contains((hotkey_text(key)->0, map[key]->WmCommand_0)),
{
    let order = choose|order: Seq<(Seq<char>, WmCommandOrDisable)>| #[trigger]
        walks(order, map) && written(config.keys@) == bound(order);
    assert forall|i: int| 0 <= i < order.len() && (
    #[trigger] order[i]).1 is WmCommand implies hotkey_text(order[i].0) is Some by {
        assert(!bad_key(map, order[i].0));
    }
    if 0 <= n < config.keys@.len() {
        assert(written(config.keys@).len() == config.keys@.len());
        bound_entries(order, n);
        let i = choose|i: int|
            0 <= i < order.len() && (#[trigger] order[i]).1 == WmCommandOrDisable::WmCommand(
                bound(order)[n].1,
            ) && hotkey_text(order[i].0) == Some(bound(order)[n].0);
        assert(binding_of(map, order[i].0, written(config.keys@)[n]));
    }
    if map.contains_key(key) && map[key] is WmCommand {
        assert(!bad_key(map, key));
        let i = choose|i: int| 0 <= i < order.len() && (#[trigger] order[i]).0 == key;
        entries_are_bound(order, i);
    }
}

/// Over a complete default configuration, the only thing that can be wrong with
/// what the user writes is a key that is no hotkey.
pub proof fn only_keys_can_be_wrong(
    result: Result<Config, SpannedError>,
    defaults: ConfigPartial,
    user: ConfigPartial,
)
    requires
        defaults.settings.first_missing() is None,
        validates(
            result,
            SettingsPartial::merged(defaults.settings, user.settings),
            preferred(defaults.window_rules, user.window_rules),
            merged_keys(defaults, user, defaults.settings.default_keys->0),
        ),
    ensures
        result is Err <==> exists|key: Seq<char>|
            bad_key(merged_keys(defaults, user, defaults.settings.default_keys->0), key),
{
    nothing_is_missing_over_complete_settings(defaults.settings, user.settings);
}

/// How the annotate-snippets crate renders an error about a part of a text, with
/// colors: the title, the message, the text, the path of its file, and where the
/// part starts and ends, in bytes.
pub uninterp spec fn rendered_report(
    title: Seq<char>,
    message: Seq<char>,
    input: Seq<char>,
    path: Seq<char>,
    start: usize,
    end: usize,
) -> Seq<char>;

/// Whether the byte at `index` of a text, or its end, is where a character
/// starts or the text ends.
pub open spec fn splits_nothing(text: Seq<char>, index: int) -> bool {
    vstd::utf8::is_char_boundary(vstd::utf8::encode_utf8(text), index)
}

/// `Renderer::render`, styled, of one report at the level of errors that has
/// `input` as its snippet and a primary annotation. The annotated part has to
/// lie within the text and must not split a character.
#[verifier::external_body]
fn render_report(
    title: &str,
    message: &str,
    input: &str,
    path: &str,
    start: usize,
    end: usize,
) -> (report: String)
    requires
        start <= end,
        splits_nothing(input@, start as int),
        splits_nothing(input@, end as int),
    ensures
        report@ == rendered_report(title@, message@, input@, path@, start, end),
{
    let part = annotate_snippets::AnnotationKind::Primary.span(start..end).label(message);
    let snippet = annotate_snippets::Snippet::source(input).path(path).annotation(part);
    let report = annotate_snippets::Level::ERROR.primary_title(title).element(snippet);
    annotate_snippets::Renderer::styled().render(&[report])
}

/// Whether the part that an error points at lies within `input` and splits no
/// character.
pub open spec fn points_into(error: SpannedError, input: Seq<char>) -> bool {
    error.span matches Some(span) ==> {
        &&& span.start <= span.end
        &&& splits_nothing(input, span.start as int)
        &&& splits_nothing(input, span.end as int)
    }
}

/// Whether an error can be shown together with `input`.
pub fn fits(error: &SpannedError, input: &str) -> (yes: bool)
    ensures
        yes == points_into(*error, input@),
{
    match error.span {
        Some(span) => span.start <= span.end && input.is_char_boundary(span.start)
            && input.is_char_boundary(span.end),
        None => true,
    }
}

/// Puts an error into words for the user, with the part of the configuration
/// that it points at.
pub fn format_toml_error(error: SpannedError, input: &str, path: &str) -> (report: String)
    requires
        points_into(error, input@),
    ensures
        report@ == (match error.span {
            Some(span) => rendered_report(
                "could not parse config"@,
                error.message@,
                input@,
                path@,
                span.start,
                span.end,
            ),
            None => "could not parse config: "@ + error.message@,
        }),
{
    match error.span {
        Some(span) => render_report(
            "could not parse config",
            error.message.as_str(),
            input,
            path,
            span.start,
            span.end,
        ),
        None => "could not parse config: ".to_owned().concat(error.message.as_str()),
    }
}

/// Whether a key is bound in a map that may be missing.
pub open spec fn binds(keys: Option<FxHashMap<String, WmCommandOrDisable>>, key: Seq<char>) -> bool {
    keys is Some && bindings(keys->0).contains_key(key)
}

/// In a merged configuration, the settings are merged and the rules are those of
/// the user, if there are any. A key is bound as the user binds it; the others keep
/// their default binding, unless the user binds keys and wants no default ones.
pub proof fn merging_lays_the_user_over_the_defaults(
    low: ConfigPartial,
    high: ConfigPartial,
    default_keys: bool,
    all: ConfigPartial,
    settings: SettingsPartial,
    key: Seq<char>,
)
    requires
        call_ensures(ConfigPartial::merge, (low, high, default_keys), all),
        call_ensures(SettingsPartial::merge, (low.settings, high.settings), settings),
    ensures
        all.settings == settings,
        high.window_rules is Some ==> all.window_rules == high.window_rules,
        high.window_rules is None ==> all.window_rules == low.window_rules,
        all.keys is Some,
        binds(high.keys, key) ==> binds(all.keys, key) && bindings(all.keys->0)[key] == bindings(
            high.keys->0,
        )[key],
        ({
            let unwanted = high.keys is Some && if high.settings.default_keys is Some {
                !high.settings.default_keys->0
            } else {
                !default_keys
            };
            !binds(high.keys, key) ==> {
                &&& binds(all.keys, key) <==> binds(low.keys, key) && !unwanted
                &&& binds(all.keys, key) ==> bindings(all.keys->0)[key] == bindings(
                    low.keys->0,
                )[key]
            }
        }),
{
    reveal(preferred);
}

proof fn commands_are_the_bindings_with_one(parsed: Seq<ParsedBinding>)
    requires
        forall|i: int| 0 <= i < parsed.len() ==> !(#[trigger] parsed[i]).unusable(),
    ensures
        commands(parsed) == parsed.filter(
            |b: ParsedBinding| b.command is WmCommand,
        ).map_values(|b: ParsedBinding| (b.hotkey->0, b.command->WmCommand_0)),
    decreases parsed.len(),
{
    reveal(Seq::filter);
    let keep = |b: ParsedBinding| b.command is WmCommand;
    let pair = |b: ParsedBinding| (b.hotkey->0, b.command->WmCommand_0);
    if parsed.len() > 0 {
        let front = parsed.drop_last();
        assert forall|i: int| 0 <= i < front.len() implies !(#[trigger] front[i]).unusable() by {
            assert(!parsed[i].unusable());
        }
        commands_are_the_bindings_with_one(front);
        assert(!parsed[parsed.len() - 1].unusable());
        if parsed.last().command is WmCommand {
            assert(front.filter(keep).push(parsed.last()).map_values(pair) =~= front.filter(
                keep,
            ).map_values(pair).push(pair(parsed.last())));
        }
    } else {
        assert(commands(parsed) =~= parsed.filter(keep).map_values(pair));
    }
}

/// Bindings are gathered if every one that has a command has a hotkey: those with a
/// command, in their order. Otherwise the first that has none is reported.
pub proof fn keys_with_commands_are_gathered(
    parsed: Vec<ParsedBinding>,
    result: Result<Vec<(Hotkey, WmCommand)>, SpannedError>,
    first: int,
)
    requires
        call_ensures(collect_keys, (parsed,), result),
        0 <= first <= parsed@.len(),
        forall|i: int|
            0 <= i < first ==> !((#[trigger] parsed@[i]).command is WmCommand
                && parsed@[i].hotkey is None),
        first < parsed@.len() ==> parsed@[first].command is WmCommand && parsed@[first].hotkey
            is None,
    ensures
        result is Ok <==> first == parsed@.len(),
        result is Ok ==> result->Ok_0@ == parsed@.filter(
            |b: ParsedBinding| b.command is WmCommand,
        ).map_values(|b: ParsedBinding| (b.hotkey->0, b.command->WmCommand_0)),
        result is Err ==> {
            &&& result->Err_0.span is None
            &&& result->Err_0.message@ == "Could not parse hotkey: "@ + parsed@[first].key@
        },
{
    if first < parsed@.len() {
        assert(parsed@[first].unusable());
    }
    if result is Ok {
        commands_are_the_bindings_with_one(parsed@);
    }
}

/// Whether `keys` is made of the bindings of `map` that have a command, in some
/// order: their keys as hotkeys are written, with the command.
pub open spec fn lists_commands(
    keys: Seq<(Hotkey, WmCommand)>,
    map: Map<Seq<char>, WmCommandOrDisable>,
) -> bool {
    exists|order: Seq<(Seq<char>, WmCommandOrDisable)>| #[trigger]
        walks(order, map) && keys.map_values(|k: (Hotkey, WmCommand)| (k.0.text@, k.1))
            == order.filter(|e: (Seq<char>, WmCommandOrDisable)| e.1 is WmCommand).map_values(
            |e: (Seq<char>, WmCommandOrDisable)| (hotkey_text(e.0)->0, e.1->WmCommand_0),
        )
}

proof fn bound_are_the_entries_with_a_command(order: Seq<(Seq<char>, WmCommandOrDisable)>)
    ensures
        bound(order) == order.filter(
            |e: (Seq<char>, WmCommandOrDisable)| e.1 is WmCommand,
        ).map_values(
            |e: (Seq<char>, WmCommandOrDisable)| (hotkey_text(e.0)->0, e.1->WmCommand_0),
        ),
    decreases order.len(),
{
    reveal(Seq::filter);
    let keep = |e: (Seq<char>, WmCommandOrDisable)| e.1 is WmCommand;
    let pair = |e: (Seq<char>, WmCommandOrDisable)|
        (hotkey_text(e.0)->0, e.1->WmCommand_0);
    if order.len() > 0 {
        let front = order.drop_last();
        bound_are_the_entries_with_a_command(front);
        if order.last().1 is WmCommand {
            assert(front.filter(keep).push(order.last()).map_values(pair) =~= front.filter(
                keep,
            ).map_values(pair).push(pair(order.last())));
        }
    } else {
        assert(bound(order) =~= order.filter(keep).map_values(pair));
    }
}

/// Whether `key` is to run a command and is no hotkey.
pub open spec fn cannot_be_pressed(map: Map<Seq<char>, WmCommandOrDisable>, key: Seq<char>) -> bool {
    map.contains_key(key) && map[key] is WmCommand && hotkey_text(key) is None
}

/// Whether a configuration comes out of settings that were checked, and then brought
/// into range, of rules and of bindings. A key that is no hotkey is an error, then
/// what is wrong with the settings.
pub open spec fn comes_out_of(
    result: Result<Config, SpannedError>,
    checked: Result<Settings, ValidationError>,
    ranged: Settings,
    rules: Option<Vec<WindowRule>>,
    map: Map<Seq<char>, WmCommandOrDisable>,
) -> bool {
    let bad = exists|key: Seq<char>| #[trigger] cannot_be_pressed(map, key);
    &&& result is Ok <==> !bad && checked is Ok
    &&& result matches Ok(config) ==> {
        &&& crate::config::same_but_for_scrolling(config.settings, ranged)
        &&& crate::config::same_scroll_settings(
            config.settings.experimental.scroll,
            ranged.experimental.scroll,
        )
        &&& rules is Some ==> config.window_rules@ == rules->0@
        &&& rules is None ==> config.window_rules@.len() == 0
        &&& lists_commands(config.keys@, map)
    }
    &&& result matches Err(error) ==> {
        &&& error.span is None
        &&& bad ==> exists|key: Seq<char>| #[trigger]
            cannot_be_pressed(map, key) && error.message@ == "Could not parse hotkey: "@ + key
        &&& !bad ==> checked is Err && error.message@ == "missing setting: "@
            + checked->Err_0.field@
    }
}

proof fn validating_comes_out(
    result: Result<Config, SpannedError>,
    settings: SettingsPartial,
    rules: Option<Vec<WindowRule>>,
    map: Map<Seq<char>, WmCommandOrDisable>,
    checked: Result<Settings, ValidationError>,
    ranged: Settings,
)
    requires
        validates(result, settings, rules, map),
        call_ensures(SettingsPartial::validate, (settings,), checked),
        checked is Ok ==> call_ensures(Settings::validated, (checked->Ok_0,), ranged),
    ensures
        comes_out_of(result, checked, ranged, rules, map),
{
    assert forall|key: Seq<char>| #[trigger] cannot_be_pressed(map, key) == bad_key(map, key) by {}
    assert forall|key: Seq<char>| #[trigger] bad_key(map, key) == cannot_be_pressed(map, key) by {}
    let bad = exists|key: Seq<char>| #[trigger] cannot_be_pressed(map, key);
    assert(bad == exists|key: Seq<char>| bad_key(map, key)) by {
        if bad {
            let key = choose|key: Seq<char>| #[trigger] cannot_be_pressed(map, key);
            assert(bad_key(map, key));
        }
        if exists|key: Seq<char>| bad_key(map, key) {
            let key = choose|key: Seq<char>| bad_key(map, key);
            assert(cannot_be_pressed(map, key));
        }
    }
    match result {
        Ok(config) => {
            let order = choose|order: Seq<(Seq<char>, WmCommandOrDisable)>| #[trigger]
                walks(order, map) && written(config.keys@) == bound(order);
            bound_are_the_entries_with_a_command(order);
            assert(lists_commands(config.keys@, map));
        },
        Err(error) => {
            if bad {
                let key = choose|key: Seq<char>| #[trigger]
                    bad_key(map, key) && error.message@ == hotkey_error(key);
                assert(cannot_be_pressed(map, key));
            }
        },
    }
}

/// Validating makes a configuration out of its settings, rules and keys, or says
/// what is wrong with them.
pub proof fn validating_makes_a_configuration(
    partial: ConfigPartial,
    result: Result<Config, SpannedError>,
    checked: Result<Settings, ValidationError>,
    ranged: Settings,
)
    requires
        call_ensures(ConfigPartial::validate, (partial,), result),
        call_ensures(SettingsPartial::validate, (partial.settings,), checked),
        checked is Ok ==> call_ensures(Settings::validated, (checked->Ok_0,), ranged),
    ensures
        partial.keys is Some ==> comes_out_of(
            result,
            checked,
            ranged,
            partial.window_rules,
            bindings(partial.keys->0),
        ),
        partial.keys is None ==> comes_out_of(
            result,
            checked,
            ranged,
            partial.window_rules,
            Map::empty(),
        ),
{
    validating_comes_out(
        result,
        partial.settings,
        partial.window_rules,
        bindings_of(partial.keys),
        checked,
        ranged,
    );
}

/// Parsing merges the two configurations, with the default keys as the defaults
/// want them, and makes a configuration out of what that gives.
pub proof fn parsing_merges_and_validates(
    defaults: ConfigPartial,
    user: ConfigPartial,
    result: Result<Config, SpannedError>,
    all: ConfigPartial,
    checked: Result<Settings, ValidationError>,
    ranged: Settings,
)
    requires
        defaults.settings.default_keys is Some,
        call_ensures(Config::parse, (defaults, user), result),
        call_ensures(
            ConfigPartial::merge,
            (defaults, user, defaults.settings.default_keys->0),
            all,
        ),
        call_ensures(SettingsPartial::validate, (all.settings,), checked),
        checked is Ok ==> call_ensures(Settings::validated, (checked->Ok_0,), ranged),
    ensures
        all.keys is Some,
        comes_out_of(result, checked, ranged, all.window_rules, bindings(all.keys->0)),
{
    validating_comes_out(
        result,
        all.settings,
        all.window_rules,
        bindings(all.keys->0),
        checked,
        ranged,
    );
}

/// An error can be shown if what it points at starts no later than it ends, and
/// both at a character of the text or at its end. One that points at nothing always
/// can.
pub proof fn errors_fit_their_text(error: SpannedError, input: &str, yes: bool)
    requires
        call_ensures(fits, (&error, input), yes),
    ensures
        error.span is None ==> yes,
        error.span matches Some(span) ==> (yes <==> {
            let bytes = vstd::utf8::encode_utf8(input@);
            &&& span.start <= span.end
            &&& vstd::utf8::is_char_boundary(bytes, span.start as int)
            &&& vstd::utf8::is_char_boundary(bytes, span.end as int)
        }),
{
}

/// An error is put into words with the same title, whether the part that it points
/// at is shown or there is none.
pub proof fn errors_are_put_into_words(
    error: SpannedError,
    input: &str,
    path: &str,
    report: String,
)
    requires
        call_ensures(format_toml_error, (error, input, path), report),
    ensures
        error.span is None ==> report@ == "could not parse config: "@ + error.message@,
        error.span matches Some(span) ==> report@ == rendered_report(
            "could not parse config"@,
            error.message@,
            input@,
            path@,
            span.start,
            span.end,
        ),
{
}

} // verus!
