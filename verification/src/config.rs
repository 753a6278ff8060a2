//! Profiles: thresholds, bindings and their validation.

use crate::doctor::check_in_input_group;
use crate::doctor::input_member;
use crate::paths::active_ptr_of;
use crate::paths::active_ptr_path_in;
use crate::paths::config_dir_in;
use crate::paths::config_dir_of;
use crate::paths::profiles_dir_in;
use crate::paths::profiles_dir_of;
use crate::profiles::sorted;
use crate::profiles::stems;
use crate::profiles::texts;
use crate::text::has_prefix;
use crate::text::slice;
use crate::text::same_text;
use crate::text::starts_with;
use crate::text::to_chars;
use crate::text::trim;
use crate::text::trim_bounds;
use crate::units::UNIT;
use vstd::prelude::*;
use vstd::string::StringExecFns;

verus! {

/// What a profile says of itself.
#[derive(Debug, Clone)]
pub struct Meta {
    pub name: Option<String>,
    /// Whether bindings may run shell commands.
    pub allow_commands: bool,
}

/// The limits that gesture recognition works with. Times are milliseconds,
/// lengths are fixed-point normalized lengths.
#[derive(Debug, Clone, Copy)]
pub struct Thresholds {
    pub tap_ms: u64,
    pub hold_ms: u64,
    pub move_tol: i64,
    pub swipe_min_dist: i64,
    pub swipe_max_ms: u64,
    pub pinch_sensitivity: i64,
    pub pinch_step: i64,
    pub smooth_ema: i64,
}

impl Thresholds {
    /// Both durations are positive.
    pub open spec fn durations_ok(self) -> bool {
        self.tap_ms > 0 && self.hold_ms > 0
    }

    /// The movement tolerance lies strictly between zero and one unit.
    pub open spec fn tolerance_ok(self) -> bool {
        0 < self.move_tol < UNIT
    }
}

/// One binding: the dotted key of a gesture and the action bound to it.
#[derive(Debug, Clone)]
pub struct Binding {
    pub key: String,
    pub action: String,
}

/// The mathematical content of a `Binding`.
pub struct BindingView {
    pub key: Seq<char>,
    pub action: Seq<char>,
}

impl View for Binding {
    type V = BindingView;

    open spec fn view(&self) -> BindingView {
        BindingView { key: self.key@, action: self.action@ }
    }
}

/// The views of the bindings of `v`, in order.
pub open spec fn bindings_view(v: Seq<Binding>) -> Seq<BindingView> {
    Seq::new(v.len(), |k: int| v[k]@)
}

/// The action bound to `key`: that of the last binding with this key, since
/// a later binding replaces an earlier one.
pub open spec fn lookup(bindings: Seq<BindingView>, key: Seq<char>) -> Option<Seq<char>>
    decreases bindings.len(),
{
    if bindings.len() == 0 {
        None
    } else if bindings.last().key == key {
        Some(bindings.last().action)
    } else {
        lookup(bindings.drop_last(), key)
    }
}

/// A profile: what it says of itself, its thresholds, and its bindings in
/// the order in which they were read.
#[derive(Debug, Clone)]
pub struct Profile {
    pub meta: Meta,
    pub thresholds: Thresholds,
    pub bindings: Vec<Binding>,
}

/// The kind of a configuration value.
#[derive(Debug, Clone, Copy, PartialEq, Eq, Structural)]
pub enum ValueKind {
    Text,
    Integer,
    Float,
    Boolean,
    Datetime,
    Array,
    Table,
}

/// A configuration value as the bindings section holds it: text, a table of
/// named values in the order of the file, or something else, of which only
/// the kind is kept.
#[derive(Debug)]
pub enum ConfigValue {
    Text(String),
    Table(Vec<ConfigEntry>),
    Other(ValueKind),
}

/// One named value of a table.
#[derive(Debug)]
pub struct ConfigEntry {
    pub key: String,
    pub value: ConfigValue,
}

/// The key `k` below the dotted key `prefix`: the two joined by a dot, or
/// `k` alone at the top.
pub open spec fn dotted(prefix: Seq<char>, k: Seq<char>) -> Seq<char> {
    if prefix.len() == 0 {
        k
    } else {
        prefix + "."@ + k
    }
}

/// The bindings that the first `n` entries of a table give below the dotted
/// key `prefix`: each text under its dotted key, each table flattened in
/// its place, in order. The first value that is neither text nor a table
/// is the error.
pub open spec fn flattened(prefix: Seq<char>, entries: Seq<ConfigEntry>, n: int) -> Result<
    Seq<BindingView>,
    ConfigErrorView,
>
    decreases entries, n,
{
    if n <= 0 || n > entries.len() {
        Ok(Seq::empty())
    } else {
        match flattened(prefix, entries, n - 1) {
            Err(e) => Err(e),
            Ok(sofar) => {
                let key = dotted(prefix, entries[n - 1].key@);
                match entries[n - 1].value {
                    ConfigValue::Text(s) => Ok(sofar.push(BindingView { key, action: s@ })),
                    ConfigValue::Table(sub) => match flattened(key, sub@, sub@.len() as int) {
                        Ok(more) => Ok(sofar + more),
                        Err(e) => Err(e),
                    },
                    ConfigValue::Other(kind) => Err(ConfigErrorView::NotText { key, kind }),
                }
            },
        }
    }
}

/// The bindings that a bindings section gives: those of its table, or an
/// error where it is no table.
pub open spec fn flat_bindings(value: ConfigValue) -> Result<Seq<BindingView>, ConfigErrorView> {
    match value {
        ConfigValue::Table(entries) => flattened(Seq::empty(), entries@, entries@.len() as int),
        ConfigValue::Text(_) => Err(ConfigErrorView::BindingsNotTable { kind: ValueKind::Text }),
        ConfigValue::Other(kind) => Err(ConfigErrorView::BindingsNotTable { kind }),
    }
}

/// The form of an action, told by how its text begins.
#[derive(Debug, Clone, Copy, PartialEq, Eq, Structural)]
pub enum ActionKind {
    /// The empty text: nothing is to be done.
    Noop,
    /// `toggle`
    Toggle,
    /// `mouse:` and a button
    Mouse,
    /// `scroll:`, an axis and perhaps a number of steps
    Scroll,
    /// `key:` and a chord
    Key,
    /// `cmd:` and a shell command
    Command,
    /// Anything else.
    Unknown,
}

/// The form of the action `a`.
pub open spec fn kind_of(a: Seq<char>) -> ActionKind {
    if a.len() == 0 {
        ActionKind::Noop
    } else if a == "toggle"@ {
        ActionKind::Toggle
    } else if has_prefix(a, "mouse:"@) {
        ActionKind::Mouse
    } else if has_prefix(a, "scroll:"@) {
        ActionKind::Scroll
    } else if has_prefix(a, "key:"@) {
        ActionKind::Key
    } else if has_prefix(a, "cmd:"@) {
        ActionKind::Command
    } else {
        ActionKind::Unknown
    }
}

/// Why a profile was rejected.
#[derive(Debug)]
pub enum ConfigError {
    /// `tap_ms` or `hold_ms` is zero.
    NonPositiveDuration,
    /// `move_tol` does not lie strictly between zero and one unit.
    ToleranceOutOfRange,
    /// A binding has a key that is empty or white space.
    EmptyKey,
    /// The binding of `key` has an action that is empty or white space.
    EmptyAction { key: String },
    /// The binding of `key` has an action of no legal form.
    InvalidAction { key: String, action: String },
    /// The binding of `key` runs a command, which the profile does not
    /// allow.
    CommandNotAllowed { key: String },
    /// The bindings are no table but a value of the given kind.
    BindingsNotTable { kind: ValueKind },
    /// The value bound to `key` is neither text nor a table but of the
    /// given kind.
    NotText { key: String, kind: ValueKind },
}

/// The mathematical content of a `ConfigError`.
pub enum ConfigErrorView {
    NonPositiveDuration,
    ToleranceOutOfRange,
    EmptyKey,
    EmptyAction { key: Seq<char> },
    InvalidAction { key: Seq<char>, action: Seq<char> },
    CommandNotAllowed { key: Seq<char> },
    BindingsNotTable { kind: ValueKind },
    NotText { key: Seq<char>, kind: ValueKind },
}

impl View for ConfigError {
    type V = ConfigErrorView;

    open spec fn view(&self) -> ConfigErrorView {
        match self {
            ConfigError::NonPositiveDuration => ConfigErrorView::NonPositiveDuration,
            ConfigError::ToleranceOutOfRange => ConfigErrorView::ToleranceOutOfRange,
            ConfigError::EmptyKey => ConfigErrorView::EmptyKey,
            ConfigError::EmptyAction { key } => ConfigErrorView::EmptyAction { key: key@ },
            ConfigError::InvalidAction { key, action } => ConfigErrorView::InvalidAction {
                key: key@,
                action: action@,
            },
            ConfigError::CommandNotAllowed { key } => ConfigErrorView::CommandNotAllowed {
                key: key@,
            },
            ConfigError::BindingsNotTable { kind } => ConfigErrorView::BindingsNotTable {
                kind: *kind,
            },
            ConfigError::NotText { key, kind } => ConfigErrorView::NotText {
                key: key@,
                kind: *kind,
            },
        }
    }
}

/// What is wrong with one binding, if anything: an empty key, an empty
/// action, an action of no legal form, or a command that is not allowed, in
/// this order.
pub open spec fn binding_fault(b: BindingView, allow_commands: bool) -> Option<ConfigErrorView> {
    if trim(b.key).len() == 0 {
        Some(ConfigErrorView::EmptyKey)
    } else if trim(b.action).len() == 0 {
        Some(ConfigErrorView::EmptyAction { key: b.key })
    } else if kind_of(b.action) == ActionKind::Unknown {
        Some(ConfigErrorView::InvalidAction { key: b.key, action: b.action })
    } else if kind_of(b.action) == ActionKind::Command && !allow_commands {
        Some(ConfigErrorView::CommandNotAllowed { key: b.key })
    } else {
        None
    }
}

/// The fault of the first binding that has one.
pub open spec fn first_fault(bindings: Seq<BindingView>, allow_commands: bool) -> Option<
    ConfigErrorView,
>
    decreases bindings.len(),
{
    if bindings.len() == 0 {
        None
    } else if binding_fault(bindings.first(), allow_commands) is Some {
        binding_fault(bindings.first(), allow_commands)
    } else {
        first_fault(bindings.drop_first(), allow_commands)
    }
}

/// What is wrong with a profile, if anything: its durations, then its
/// tolerance, then its bindings in order.
pub open spec fn profile_fault(
    th: Thresholds,
    bindings: Seq<BindingView>,
    allow_commands: bool,
) -> Option<ConfigErrorView> {
    if !th.durations_ok() {
        Some(ConfigErrorView::NonPositiveDuration)
    } else if !th.tolerance_ok() {
        Some(ConfigErrorView::ToleranceOutOfRange)
    } else {
        first_fault(bindings, allow_commands)
    }
}

/// A list of bindings has no fault exactly if none of its bindings has one.
pub proof fn lemma_no_fault(bindings: Seq<BindingView>, allow_commands: bool)
    ensures
        first_fault(bindings, allow_commands) is None <==> forall|k: int|
            0 <= k < bindings.len() ==> binding_fault(#[trigger] bindings[k], allow_commands)
                is None,
    decreases bindings.len(),
{
    if bindings.len() > 0 {
        let rest = bindings.drop_first();
        lemma_no_fault(rest, allow_commands);
        if first_fault(bindings, allow_commands) is None {
            assert forall|k: int| 0 <= k < bindings.len() implies binding_fault(
                #[trigger] bindings[k],
                allow_commands,
            ) is None by {
                if k > 0 {
                    assert(bindings[k] == rest[k - 1]);
                }
            }
        } else if binding_fault(bindings.first(), allow_commands) is None {
            let k = choose|k: int|
                0 <= k < rest.len() && !(binding_fault(#[trigger] rest[k], allow_commands)
                    is None);
            assert(rest[k] == bindings[k + 1]);
        }
    }
}

/// Computes `kind_of`.
pub fn action_kind(action: &str) -> (k: ActionKind)
    ensures
        k == kind_of(action@),
{
    let v = to_chars(action);
    if v.len() == 0 {
        ActionKind::Noop
    } else if same_text(action, "toggle") {
        ActionKind::Toggle
    } else if starts_with(&v, "mouse:") {
        ActionKind::Mouse
    } else if starts_with(&v, "scroll:") {
        ActionKind::Scroll
    } else if starts_with(&v, "key:") {
        ActionKind::Key
    } else if starts_with(&v, "cmd:") {
        ActionKind::Command
    } else {
        ActionKind::Unknown
    }
}

/// Whether `s` is empty or white space.
pub fn is_blank(s: &str) -> (b: bool)
    ensures
        b == (trim(s@).len() == 0),
{
    let v = to_chars(s);
    assert(v@.subrange(0, v.len() as int) == v@);
    let (a, b) = trim_bounds(&v, 0, v.len());
    a == b
}

/// Looks up the action bound to `key`.
pub fn find_binding<'a>(bindings: &'a Vec<Binding>, key: &str) -> (r: Option<&'a String>)
    ensures
        match r {
            Some(a) => lookup(bindings_view(bindings@), key@) == Some(a@),
            None => lookup(bindings_view(bindings@), key@) is None,
        },
{
    let ghost all = bindings_view(bindings@);
    let mut i: usize = bindings.len();
    assert(all.take(i as int) == all);
    while i > 0
        invariant
            i <= bindings.len(),
            all == bindings_view(bindings@),
            lookup(all, key@) == lookup(all.take(i as int), key@),
        decreases i,
    {
        let b = &bindings[i - 1];
        assert(all.take(i as int).last() == b@);
        if same_text(b.key.as_str(), key) {
            return Some(&b.action);
        }
        assert(all.take(i as int).drop_last() == all.take(i - 1));
        i -= 1;
    }
    None
}

/// Checks one binding.
fn check_binding(b: &Binding, allow_commands: bool) -> (r: Option<ConfigError>)
    ensures
        match r {
            Some(e) => binding_fault(b@, allow_commands) == Some(e@),
            None => binding_fault(b@, allow_commands) is None,
        },
{
    if is_blank(b.key.as_str()) {
        return Some(ConfigError::EmptyKey);
    }
    if is_blank(b.action.as_str()) {
        return Some(ConfigError::EmptyAction { key: b.key.clone() });
    }
    let kind = action_kind(b.action.as_str());
    match kind {
        ActionKind::Unknown => Some(
            ConfigError::InvalidAction { key: b.key.clone(), action: b.action.clone() },
        ),
        ActionKind::Command => if allow_commands {
            None
        } else {
            Some(ConfigError::CommandNotAllowed { key: b.key.clone() })
        },
        _ => None,
    }
}

/// Validates a profile: both durations positive, the movement tolerance
/// strictly between zero and one unit, and every binding with a key, an
/// action of a legal form, and no command unless the profile allows
/// commands. The first fault found is the error.
pub fn validate_profile(p: &Profile) -> (r: Result<(), ConfigError>)
    ensures
        match r {
            Ok(_) => profile_fault(
                p.thresholds,
                bindings_view(p.bindings@),
                p.meta.allow_commands,
            ) is None,
            Err(e) => profile_fault(
                p.thresholds,
                bindings_view(p.bindings@),
                p.meta.allow_commands,
            ) == Some(e@),
        },
{
    if p.thresholds.tap_ms == 0 || p.thresholds.hold_ms == 0 {
        return Err(ConfigError::NonPositiveDuration);
    }
    if !(0 < p.thresholds.move_tol && p.thresholds.move_tol < UNIT) {
        return Err(ConfigError::ToleranceOutOfRange);
    }
    let ghost all = bindings_view(p.bindings@);
    let allow = p.meta.allow_commands;
    let mut i: usize = 0;
    assert(all.skip(0) == all);
    while i < p.bindings.len()
        invariant
            i <= p.bindings.len(),
            all == bindings_view(p.bindings@),
            allow == p.meta.allow_commands,
            p.thresholds.durations_ok(),
            p.thresholds.tolerance_ok(),
            first_fault(all, allow) == first_fault(all.skip(i as int), allow),
        decreases p.bindings.len() - i,
    {
        assert(all.skip(i as int).first() == p.bindings[i as int]@);
        assert(all.skip(i as int).drop_first() == all.skip(i + 1));
        match check_binding(&p.bindings[i], allow) {
            Some(e) => {
                return Err(e);
            },
            None => {},
        }
        i += 1;
    }
    Ok(())
}

/// What a kind of value is called in messages.
pub fn kind_name(kind: ValueKind) -> (name: &'static str)
    ensures
        name@ == match kind {
            ValueKind::Text => "string"@,
            ValueKind::Integer => "integer"@,
            ValueKind::Float => "float"@,
            ValueKind::Boolean => "boolean"@,
            ValueKind::Datetime => "datetime"@,
            ValueKind::Array => "array"@,
            ValueKind::Table => "table"@,
        },
{
    match kind {
        ValueKind::Text => "string",
        ValueKind::Integer => "integer",
        ValueKind::Float => "float",
        ValueKind::Boolean => "boolean",
        ValueKind::Datetime => "datetime",
        ValueKind::Array => "array",
        ValueKind::Table => "table",
    }
}

/// Computes `dotted`.
pub fn dotted_key(prefix: &str, k: &str) -> (key: String)
    ensures
        key@ == dotted(prefix@, k@),
{
    if prefix.is_empty() {
        String::from_str(k)
    } else {
        let mut key = String::from_str(prefix);
        key.append(".");
        key.append(k);
        key
    }
}

/// Flattens a table of nested tables into bindings with dotted keys and
/// adds them to `out`, in the order of the table. Where a value is neither
/// text nor a table, the first such value is the error, and what `out` then
/// holds beyond its old content is not specified.
pub fn flatten_table(prefix: &str, table: &Vec<ConfigEntry>, out: &mut Vec<Binding>) -> (r: Result<
    (),
    ConfigError,
>)
    ensures
        match r {
            Ok(_) => {
                &&& flattened(prefix@, table@, table@.len() as int) is Ok
                &&& bindings_view(final(out)@) == bindings_view(old(out)@) + flattened(
                    prefix@,
                    table@,
                    table@.len() as int,
                )->Ok_0
            },
            Err(e) => flattened(prefix@, table@, table@.len() as int) == Err::<
                Seq<BindingView>,
                ConfigErrorView,
            >(e@),
        },
    decreases table,
{
    let ghost before = bindings_view(out@);
    let mut i: usize = 0;
    assert(before + Seq::<BindingView>::empty() =~= before);
    while i < table.len()
        invariant
            i <= table.len(),
            flattened(prefix@, table@, i as int) is Ok,
            bindings_view(out@) == before + flattened(prefix@, table@, i as int)->Ok_0,
        decreases table.len() - i,
    {
        let entry = &table[i];
        let key = dotted_key(prefix, entry.key.as_str());
        let ghost sofar = flattened(prefix@, table@, i as int)->Ok_0;
        let ghost held = bindings_view(out@);
        match &entry.value {
            ConfigValue::Text(s) => {
                out.push(Binding { key, action: s.clone() });
                assert(bindings_view(out@) =~= held.push(
                    BindingView { key: dotted(prefix@, entry.key@), action: s@ },
                ));
                assert(bindings_view(out@) =~= before + sofar.push(
                    BindingView { key: dotted(prefix@, entry.key@), action: s@ },
                ));
            },
            ConfigValue::Table(sub) => {
                match flatten_table(key.as_str(), sub, out) {
                    Ok(_) => {
                        let ghost more = flattened(key@, sub@, sub@.len() as int)->Ok_0;
                        assert(bindings_view(out@) =~= before + (sofar + more));
                    },
                    Err(e) => {
                        proof {
                            lemma_flattened_fails(prefix@, table@, i + 1, table@.len() as int);
                        }
                        return Err(e);
                    },
                }
            },
            ConfigValue::Other(kind) => {
                proof {
                    lemma_flattened_fails(prefix@, table@, i + 1, table@.len() as int);
                }
                return Err(ConfigError::NotText { key, kind: *kind });
            },
        }
        i += 1;
    }
    Ok(())
}

/// An error among the first `n` entries is the error of any longer part of
/// the table.
pub proof fn lemma_flattened_fails(prefix: Seq<char>, entries: Seq<ConfigEntry>, n: int, m: int)
    requires
        0 <= n <= m <= entries.len(),
        flattened(prefix, entries, n) is Err,
    ensures
        flattened(prefix, entries, m) == flattened(prefix, entries, n),
    decreases m - n,
{
    if n < m {
        lemma_flattened_fails(prefix, entries, n, m - 1);
    }
}

/// Reads the bindings of a bindings section: flattens its nested tables
/// into bindings with dotted keys. A section that is no table is an error,
/// and so is a value that is neither text nor a table.
pub fn flatten_bindings(value: &ConfigValue) -> (r: Result<Vec<Binding>, ConfigError>)
    ensures
        match r {
            Ok(b) => flat_bindings(*value) == Ok::<Seq<BindingView>, ConfigErrorView>(
                bindings_view(b@),
            ),
            Err(e) => flat_bindings(*value) == Err::<Seq<BindingView>, ConfigErrorView>(e@),
        },
{
    match value {
        ConfigValue::Table(entries) => {
            let mut out: Vec<Binding> = Vec::new();
            proof {
                reveal_strlit("");
            }
            match flatten_table("", entries, &mut out) {
                Ok(_) => {
                    assert(""@ =~= Seq::<char>::empty());
                    assert(bindings_view(Seq::<Binding>::empty()) =~= Seq::<BindingView>::empty());
                    assert(bindings_view(out@) =~= flattened(
                        Seq::empty(),
                        entries@,
                        entries@.len() as int,
                    )->Ok_0);
                    Ok(out)
                },
                Err(e) => {
                    assert(""@ =~= Seq::<char>::empty());
                    Err(e)
                },
            }
        },
        ConfigValue::Text(_) => Err(ConfigError::BindingsNotTable { kind: ValueKind::Text }),
        ConfigValue::Other(kind) => Err(ConfigError::BindingsNotTable { kind: *kind }),
    }
}

/// The text of the profile that is installed where none exists.
pub fn default_profile_text() -> (text: &'static str)
    ensures
        text@ == DEFAULT_PROFILE@,
{
    DEFAULT_PROFILE
}

/// The profile that is installed where none exists.
pub const DEFAULT_PROFILE: &'static str =
    "[meta]\nname = \"default\"\nallow_commands = false\n\n[thresholds]\ntap_ms = 250\nhold_ms = 500\nmove_tol = 0.02\nswipe_min_dist = 0.12\nswipe_max_ms = 600\npinch_sensitivity = 1.0\npinch_step = 0.05\nsmooth_ema = 0.3\n\n[bindings.two_finger]\ntap = \"mouse:right\"\nswipe_left = \"key:ALT+TAB\"\nswipe_right = \"key:ALT+SHIFT+TAB\"\nswipe_up = \"scroll:vertical@+3\"\nswipe_down = \"scroll:vertical@-3\"\n\n[bindings.pinch]\nscale_in = \"key:CTRL+MINUS\"\nscale_out = \"key:CTRL+EQUAL\"\n\n[bindings.three_finger]\ntap = \"mouse:middle\"\n";

/// The name of the profile that is active where nothing else is said.
pub const DEFAULT_PROFILE_NAME: &'static str = "default";

/// Where the rule lives that opens the virtual-input device to the user.
pub const UDEV_RULE_HINT: &'static str = "/etc/udev/rules.d/80-uinput.rules";

/// How the user joins the group that may read input devices.
pub const INPUT_GROUP_HINT: &'static str = "sudo usermod -aG input $USER && newgrp input";

/// The name of the active profile as the pointer file holds it: the file's
/// text, trimmed.
pub fn active_name_from(pointer_text: &str) -> (name: String)
    ensures
        name@ == trim(pointer_text@),
{
    let v = to_chars(pointer_text);
    assert(v@.subrange(0, v.len() as int) == v@);
    let (a, b) = trim_bounds(&v, 0, v.len());
    slice(pointer_text, a, b)
}

/// What the daemon knows of its configuration.
#[derive(Debug, Clone)]
pub struct DaemonConfigState {
    /// The name of the active profile.
    pub active_name: String,
    /// The profile in force: the last one that passed validation.
    pub profile: Profile,
    pub config_dir: String,
    pub profiles_dir: String,
    /// The file that names the active profile.
    pub active_ptr: String,
    /// The multitouch devices found at start, each as its label.
    pub detected_devices: Vec<String>,
}

/// The diagnosis that the daemon gives of its surroundings.
#[derive(Debug, Clone)]
pub struct DoctorReport {
    pub uinput_present: bool,
    pub input_group_member: bool,
    pub profiles_dir: String,
    pub active_profile: String,
    pub devices: Vec<String>,
    pub udev_rule: &'static str,
    pub add_user_to_input_group: &'static str,
}

/// What is wrong with `p`, if anything.
pub open spec fn fault_of(p: Profile) -> Option<ConfigErrorView> {
    profile_fault(p.thresholds, bindings_view(p.bindings@), p.meta.allow_commands)
}

impl DaemonConfigState {
    /// The state of a daemon whose files lie below `home`, with `profile`
    /// in force under the name `active_name`.
    pub fn new(home: &str, active_name: String, profile: Profile, detected_devices: Vec<String>)
        -> (s: DaemonConfigState)
        ensures
            s.active_name == active_name,
            s.profile == profile,
            s.detected_devices == detected_devices,
            s.config_dir@ == config_dir_of(home@),
            s.profiles_dir@ == profiles_dir_of(home@),
            s.active_ptr@ == active_ptr_of(home@),
    {
        DaemonConfigState {
            active_name,
            profile,
            config_dir: config_dir_in(home),
            profiles_dir: profiles_dir_in(home),
            active_ptr: active_ptr_path_in(home),
            detected_devices,
        }
    }

    /// Takes `candidate`, the active profile as it was read again, if it
    /// passes validation. A profile that is rejected leaves the last good
    /// one in force.
    pub fn reload(&mut self, candidate: Profile) -> (r: Result<(), ConfigError>)
        ensures
            final(self).active_name == old(self).active_name,
            final(self).config_dir == old(self).config_dir,
            final(self).profiles_dir == old(self).profiles_dir,
            final(self).active_ptr == old(self).active_ptr,
            final(self).detected_devices == old(self).detected_devices,
            match r {
                Ok(_) => fault_of(candidate) is None && final(self).profile == candidate,
                Err(e) => fault_of(candidate) == Some(e@) && final(self).profile == old(
                    self,
                ).profile,
            },
    {
        match validate_profile(&candidate) {
            Ok(_) => {
                self.profile = candidate;
                Ok(())
            },
            Err(e) => Err(e),
        }
    }

    /// Makes `name` the active profile and puts `candidate`, the profile of
    /// that name as it was read, in force, if it passes validation. A
    /// profile that is rejected changes nothing: the last good profile
    /// stays in force under its name.
    pub fn set_active(&mut self, name: &str, candidate: Profile) -> (r: Result<(), ConfigError>)
        ensures
            final(self).config_dir == old(self).config_dir,
            final(self).profiles_dir == old(self).profiles_dir,
            final(self).active_ptr == old(self).active_ptr,
            final(self).detected_devices == old(self).detected_devices,
            match r {
                Ok(_) => {
                    &&& fault_of(candidate) is None
                    &&& final(self).profile == candidate
                    &&& final(self).active_name@ == name@
                },
                Err(e) => {
                    &&& fault_of(candidate) == Some(e@)
                    &&& final(self).profile == old(self).profile
                    &&& final(self).active_name == old(self).active_name
                },
            },
    {
        match self.reload(candidate) {
            Ok(_) => {
                self.active_name = String::from_str(name);
                Ok(())
            },
            Err(e) => Err(e),
        }
    }

    /// The names of the profiles among the files of the profiles directory,
    /// in the order of the dictionary.
    pub fn list_profiles(&self, file_names: &Vec<String>) -> (names: Vec<String>)
        ensures
            sorted(texts(names@)),
            texts(names@).to_multiset() == stems(
                file_names@,
                file_names@.len() as int,
            ).to_multiset(),
    {
        crate::profiles::list_profiles(file_names)
    }

    /// The diagnosis. `uinput_present` says whether the virtual-input
    /// device node exists, and `group_text` is the text of the system's
    /// group file, if it could be read; without it the user counts as no
    /// member of the input group.
    pub fn doctor_report(&self, uinput_present: bool, group_text: Option<&str>) -> (report:
        DoctorReport)
        ensures
            report.uinput_present == uinput_present,
            report.profiles_dir@ == self.profiles_dir@,
            report.active_profile@ == self.active_name@,
            report.devices@ == self.detected_devices@,
            report.udev_rule@ == UDEV_RULE_HINT@,
            report.add_user_to_input_group@ == INPUT_GROUP_HINT@,
            group_text is None ==> !report.input_group_member,
            group_text is Some ==> exists|user: Seq<char>|
                report.input_group_member == input_member(group_text->0@, user),
    {
        let member = match group_text {
            Some(text) => check_in_input_group(text),
            None => false,
        };
        DoctorReport {
            uinput_present,
            input_group_member: member,
            profiles_dir: self.profiles_dir.clone(),
            active_profile: self.active_name.clone(),
            devices: copy_texts(&self.detected_devices),
            udev_rule: UDEV_RULE_HINT,
            add_user_to_input_group: INPUT_GROUP_HINT,
        }
    }
}

/// A copy of a list of texts.
fn copy_texts(v: &Vec<String>) -> (copy: Vec<String>)
    ensures
        copy@ == v@,
{
    let mut copy: Vec<String> = Vec::new();
    let mut i: usize = 0;
    while i < v.len()
        invariant
            i <= v.len(),
            copy@ == v@.take(i as int),
        decreases v.len() - i,
    {
        copy.push(v[i].clone());
        assert(v@.take(i + 1) == v@.take(i as int).push(v@[i as int]));
        i += 1;
    }
    assert(v@.take(v.len() as int) == v@);
    copy
}

} // verus!
