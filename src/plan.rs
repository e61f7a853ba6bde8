//! What each backend must run to put the chosen wallpapers on screen.
use vstd::prelude::*;
use crate::builder::Screen;
use crate::environment::{delegates, Environment};
use crate::mode::Mode;
use crate::discover::BackdropKey;
use crate::native::{
    cinnamon_name_of, cinnamon_of, CinnamonMode, kde_fill_mode, kde_fill_mode_of, sway_keyword, sway_keyword_of, xfce_image_style, xfce_style_of,
    xwallpaper_flag, xwallpaper_flag_of,
};
use crate::text::{decimal, digit_char, to_decimal};

verus! {

/// An external program and its arguments.
pub struct Invocation {
    pub program: String,
    pub args: Vec<String>,
}

/// The characters of each string.
pub open spec fn texts(v: Seq<String>) -> Seq<Seq<char>> {
    v.map_values(|s: String| s@)
}

/// `inv` runs `program` with `args`.
pub open spec fn runs(inv: Invocation, program: Seq<char>, args: Seq<Seq<char>>) -> bool {
    inv.program@ == program && texts(inv.args@) == args
}

/// Whether every screen has an image and a mode.
pub open spec fn all_assigned(screens: Seq<Screen>) -> bool {
    forall|k: int| 0 <= k < screens.len() ==> (#[trigger] screens[k]).wallpaper is Some && screens[k].mode is Some
}

/// The image path of an assigned screen.
pub open spec fn path_of(s: Screen) -> Seq<char> {
    s.wallpaper->0@
}

fn invocation(program: &str, args: Vec<String>) -> (r: Invocation)
    ensures
        r.program@ == program@,
        r.args == args,
{
    Invocation { program: program.to_string(), args }
}

fn push_str(v: &mut Vec<String>, s: &str)
    ensures
        final(v)@.len() == old(v)@.len() + 1,
        texts(final(v)@) == texts(old(v)@).push(s@),
{
    let ghost before = v@;
    v.push(s.to_string());
    assert(texts(v@) =~= texts(before).push(s@));
}

fn push_string(v: &mut Vec<String>, s: String)
    ensures
        final(v)@.len() == old(v)@.len() + 1,
        texts(final(v)@) == texts(old(v)@).push(s@),
{
    let ghost before = v@;
    v.push(s);
    assert(texts(v@) =~= texts(before).push(s@));
}

// ---- X11: one painter run for all screens ----

/// The painter's arguments: `--output NAME --MODE PATH` for each screen.
pub open spec fn x11_args(screens: Seq<Screen>) -> Seq<Seq<char>>
    decreases screens.len(),
{
    if screens.len() == 0 {
        Seq::empty()
    } else {
        let s = screens.last();
        x11_args(screens.drop_last()) + seq![
            "--output"@,
            s.name@,
            "--"@ + xwallpaper_flag_of(s.mode->0),
            path_of(s),
        ]
    }
}

pub open spec fn painter() -> Seq<char> {
    "xwallpaper"@
}

/// One run of the painter that sets every screen of `screens` at once.
pub fn x11_invocation(screens: &Vec<Screen>) -> (r: Invocation)
    requires
        all_assigned(screens@),
    ensures
        runs(r, painter(), x11_args(screens@)),
{
    let mut args: Vec<String> = Vec::new();
    let mut k: usize = 0;
    while k < screens.len()
        invariant
            k <= screens@.len(),
            all_assigned(screens@),
            texts(args@) == x11_args(screens@.subrange(0, k as int)),
        decreases screens@.len() - k,
    {
        let s = &screens[k];
        assert(screens@[k as int].wallpaper is Some && screens@[k as int].mode is Some);
        let ghost before = texts(args@);
        let flag = String::from_str("--").concat(xwallpaper_flag(s.mode.unwrap()));
        let path = s.wallpaper.as_ref().unwrap().clone();
        push_str(&mut args, "--output");
        push_string(&mut args, s.name.clone());
        push_string(&mut args, flag);
        push_string(&mut args, path);
        proof {
            let sub = screens@.subrange(0, k + 1);
            assert(sub.drop_last() =~= screens@.subrange(0, k as int));
            assert(texts(args@) =~= x11_args(sub));
        }
        k = k + 1;
    }
    assert(screens@.subrange(0, screens@.len() as int) =~= screens@);
    invocation("xwallpaper", args)
}

// ---- sway: one `output NAME bg PATH MODE` per screen ----

pub open spec fn sway_set_args(s: Screen) -> Seq<Seq<char>> {
    seq!["output"@, s.name@, "bg"@, path_of(s), sway_keyword_of(s.mode->0)]
}

pub open spec fn sway_msg() -> Seq<char> {
    "swaymsg"@
}

/// One message to sway for each screen, in order.
pub fn sway_invocations(screens: &Vec<Screen>) -> (r: Vec<Invocation>)
    requires
        all_assigned(screens@),
    ensures
        r@.len() == screens@.len(),
        forall|k: int| 0 <= k < r@.len() ==> runs(#[trigger] r@[k], sway_msg(), sway_set_args(screens@[k])),
{
    let mut r: Vec<Invocation> = Vec::new();
    let mut k: usize = 0;
    while k < screens.len()
        invariant
            k <= screens@.len(),
            all_assigned(screens@),
            r@.len() == k,
            forall|j: int| 0 <= j < k ==> runs(#[trigger] r@[j], sway_msg(), sway_set_args(screens@[j])),
        decreases screens@.len() - k,
    {
        let s = &screens[k];
        assert(screens@[k as int].wallpaper is Some && screens@[k as int].mode is Some);
        let mut args: Vec<String> = Vec::new();
        push_str(&mut args, "output");
        push_string(&mut args, s.name.clone());
        push_str(&mut args, "bg");
        push_string(&mut args, s.wallpaper.as_ref().unwrap().clone());
        push_str(&mut args, sway_keyword(s.mode.unwrap()));
        assert(texts(args@) =~= sway_set_args(screens@[k as int]));
        r.push(invocation("swaymsg", args));
        k = k + 1;
    }
    r
}

// ---- xfce: two property writes per screen ----

pub open spec fn xfconf() -> Seq<char> {
    "xfconf-query"@
}

/// The full key of property `leaf` of bucket `name`.
pub open spec fn backdrop_property(name: Seq<char>, leaf: Seq<char>) -> Seq<char> {
    "/backdrop/"@ + name + "/"@ + leaf
}

pub open spec fn xfce_set_args(key: Seq<char>, value: Seq<char>) -> Seq<Seq<char>> {
    seq!["--channel"@, "xfce4-desktop"@, "--set"@, key, value]
}

fn xfce_set(key: String, value: String) -> (r: Invocation)
    ensures
        runs(r, xfconf(), xfce_set_args(key@, value@)),
{
    let mut args: Vec<String> = Vec::new();
    push_str(&mut args, "--channel");
    push_str(&mut args, "xfce4-desktop");
    push_str(&mut args, "--set");
    push_string(&mut args, key);
    push_string(&mut args, value);
    assert(texts(args@) =~= xfce_set_args(key@, value@));
    invocation("xfconf-query", args)
}

fn backdrop_key(name: &String, leaf: &str) -> (r: String)
    ensures
        r@ == backdrop_property(name@, leaf@),
{
    String::from_str("/backdrop/").concat(name.as_str()).concat("/").concat(leaf)
}

/// For each screen in order, a write of its image to `last-image` and then of
/// its mode to `image-style`.
pub fn xfce_invocations(screens: &Vec<Screen>) -> (r: Vec<Invocation>)
    requires
        all_assigned(screens@),
    ensures
        r@.len() == 2 * screens@.len(),
        forall|k: int|
            0 <= k < screens@.len() ==> runs(
                #[trigger] r@[2 * k],
                xfconf(),
                xfce_set_args(backdrop_property(screens@[k].name@, "last-image"@), path_of(screens@[k])),
            ) && runs(
                r@[2 * k + 1],
                xfconf(),
                xfce_set_args(
                    backdrop_property(screens@[k].name@, "image-style"@),
                    xfce_style_of(screens@[k].mode->0),
                ),
            ),
{
    let mut r: Vec<Invocation> = Vec::new();
    let mut k: usize = 0;
    while k < screens.len()
        invariant
            k <= screens@.len(),
            all_assigned(screens@),
            r@.len() == 2 * k,
            forall|j: int|
                0 <= j < k ==> runs(
                    #[trigger] r@[2 * j],
                    xfconf(),
                    xfce_set_args(backdrop_property(screens@[j].name@, "last-image"@), path_of(screens@[j])),
                ) && runs(
                    r@[2 * j + 1],
                    xfconf(),
                    xfce_set_args(
                        backdrop_property(screens@[j].name@, "image-style"@),
                        xfce_style_of(screens@[j].mode->0),
                    ),
                ),
        decreases screens@.len() - k,
    {
        let s = &screens[k];
        assert(screens@[k as int].wallpaper is Some && screens@[k as int].mode is Some);
        let image = xfce_set(backdrop_key(&s.name, "last-image"), s.wallpaper.as_ref().unwrap().clone());
        let style = xfce_set(
            backdrop_key(&s.name, "image-style"),
            String::from_str(xfce_image_style(s.mode.unwrap())),
        );
        r.push(image);
        r.push(style);
        k = k + 1;
    }
    r
}

// ---- plasma shell: one script for all screens ----

/// `serde_json::Error`, held opaque.
#[verifier::external_type_specification]
#[verifier::external_body]
pub struct ExJsonError(serde_json::Error);

/// A hexadecimal digit, in lower case.
pub open spec fn hex_digit(d: int) -> char {
    if d < 10 {
        digit_char(d as nat)
    } else if d == 10 {
        'a'
    } else if d == 11 {
        'b'
    } else if d == 12 {
        'c'
    } else if d == 13 {
        'd'
    } else if d == 14 {
        'e'
    } else {
        'f'
    }
}

/// How a character stands inside a JSON string literal: quote, backslash and
/// the control characters are escaped, everything else stands as is.
pub open spec fn json_char(c: char) -> Seq<char> {
    if c == '"' {
        seq!['\\', '"']
    } else if c == '\\' {
        seq!['\\', '\\']
    } else if c == '\x08' {
        seq!['\\', 'b']
    } else if c == '\x0c' {
        seq!['\\', 'f']
    } else if c == '\n' {
        seq!['\\', 'n']
    } else if c == '\r' {
        seq!['\\', 'r']
    } else if c == '\t' {
        seq!['\\', 't']
    } else if (c as u32) < 0x20 {
        seq!['\\', 'u', '0', '0', hex_digit((c as u32) as int / 16), hex_digit((c as u32) as int % 16)]
    } else {
        seq![c]
    }
}

pub open spec fn json_chars(s: Seq<char>) -> Seq<char>
    decreases s.len(),
{
    if s.len() == 0 {
        Seq::empty()
    } else {
        json_chars(s.drop_last()) + json_char(s.last())
    }
}

/// The JSON string literal of the characters `s`.
pub open spec fn json_string_of(s: Seq<char>) -> Seq<char> {
    seq!['"'] + json_chars(s) + seq!['"']
}

/// Relies on `serde_json::to_string` on a `str`: it writes the JSON string
/// literal (quote, each character escaped as `json_char` says, quote) into a
/// `Vec`, which does not fail.
#[verifier::external_body]
fn json_string(s: &str) -> (r: Result<String, serde_json::Error>)
    ensures
        r is Ok,
        r matches Ok(j) ==> j@ == json_string_of(s@),
{
    serde_json::to_string(s)
}

pub open spec fn kde_head() -> Seq<char> {
    "\n\tfor (const desktop of desktops()) {\n\t\tdesktop.currentConfigGroup = [\"Wallpaper\", \"org.kde.image\", \"General\"];"@
}

pub open spec fn kde_tail() -> Seq<char> {
    "\n\t}"@
}

/// The part of the script that configures the desktop of screen `s`.
pub open spec fn kde_block(s: Screen) -> Seq<char> {
    "\n\t\tif (desktop.id === "@ + s.name@ + "){\n\t\t\tdesktop.writeConfig(\"FillMode\", "@
        + decimal(kde_fill_mode_of(s.mode->0) as nat) + ");\n\t\t\tdesktop.writeConfig(\"Image\", "@
        + json_string_of(path_of(s)) + ");\n\t\t}"@
}

pub open spec fn kde_blocks(screens: Seq<Screen>) -> Seq<char>
    decreases screens.len(),
{
    if screens.len() == 0 {
        Seq::empty()
    } else {
        kde_blocks(screens.drop_last()) + kde_block(screens.last())
    }
}

/// The script that sets `FillMode` and `Image` of the desktop of each screen.
pub open spec fn kde_script(screens: Seq<Screen>) -> Seq<char> {
    kde_head() + kde_blocks(screens) + kde_tail()
}

/// The script that asks the plasma shell for its desktops as JSON.
pub fn kde_desktops_script() -> (r: &'static str)
    ensures
        r@ == "print(JSON.stringify(desktops()));"@,
{
    "print(JSON.stringify(desktops()));"
}

/// The plasma shell script that applies every screen.
pub fn kde_set_script(screens: &Vec<Screen>) -> (r: String)
    requires
        all_assigned(screens@),
    ensures
        r@ == kde_script(screens@),
{
    let mut script = String::from_str(
        "\n\tfor (const desktop of desktops()) {\n\t\tdesktop.currentConfigGroup = [\"Wallpaper\", \"org.kde.image\", \"General\"];",
    );
    let mut k: usize = 0;
    while k < screens.len()
        invariant
            k <= screens@.len(),
            all_assigned(screens@),
            script@ == kde_head() + kde_blocks(screens@.subrange(0, k as int)),
        decreases screens@.len() - k,
    {
        let s = &screens[k];
        assert(screens@[k as int].wallpaper is Some && screens@[k as int].mode is Some);
        let fill = to_decimal(kde_fill_mode(s.mode.unwrap()) as u64);
        let image = match json_string(s.wallpaper.as_ref().unwrap().as_str()) {
            Ok(j) => j,
            Err(_) => String::new(),
        };
        let ghost before = script@;
        script.append("\n\t\tif (desktop.id === ");
        script.append(s.name.as_str());
        script.append("){\n\t\t\tdesktop.writeConfig(\"FillMode\", ");
        script.append(fill.as_str());
        script.append(");\n\t\t\tdesktop.writeConfig(\"Image\", ");
        script.append(image.as_str());
        script.append(");\n\t\t}");
        proof {
            let sub = screens@.subrange(0, k + 1);
            assert(sub.drop_last() =~= screens@.subrange(0, k as int));
            assert(sub.last() == screens@[k as int]);
            assert(script@ =~= before + kde_block(screens@[k as int]));
        }
        k = k + 1;
    }
    assert(screens@.subrange(0, screens@.len() as int) =~= screens@);
    script.append("\n\t}");
    script
}

// ---- cinnamon: the painter for active screens, the store for the default ----

/// The active screens, in order.
pub open spec fn actives(screens: Seq<Screen>) -> Seq<Screen>
    decreases screens.len(),
{
    if screens.len() == 0 {
        screens
    } else if screens.last().active {
        actives(screens.drop_last()).push(screens.last())
    } else {
        actives(screens.drop_last())
    }
}

/// The first inactive screen, if any.
pub open spec fn first_inactive(screens: Seq<Screen>) -> Option<Screen>
    decreases screens.len(),
{
    if screens.len() == 0 {
        None
    } else {
        match first_inactive(screens.drop_last()) {
            Some(s) => Some(s),
            None => if !screens.last().active {
                Some(screens.last())
            } else {
                None
            },
        }
    }
}

proof fn lemma_actives_assigned(screens: Seq<Screen>)
    requires
        all_assigned(screens),
    ensures
        all_assigned(actives(screens)),
    decreases screens.len(),
{
    if screens.len() > 0 {
        let rest = screens.drop_last();
        assert(all_assigned(rest)) by {
            assert forall|k: int| 0 <= k < rest.len() implies (#[trigger] rest[k]).wallpaper is Some
                && rest[k].mode is Some by {
                assert(rest[k] == screens[k]);
            }
        }
        lemma_actives_assigned(rest);
        assert(screens[screens.len() - 1] == screens.last());
    }
}

/// The active screens, and the first inactive one.
fn split_default(screens: &Vec<Screen>) -> (r: (Vec<Screen>, Option<Screen>))
    ensures
        r.0@ == actives(screens@),
        r.1 == first_inactive(screens@),
{
    let mut active: Vec<Screen> = Vec::new();
    let mut default: Option<Screen> = None;
    let mut k: usize = 0;
    while k < screens.len()
        invariant
            k <= screens@.len(),
            active@ == actives(screens@.subrange(0, k as int)),
            default == first_inactive(screens@.subrange(0, k as int)),
        decreases screens@.len() - k,
    {
        let ghost sub = screens@.subrange(0, k + 1);
        assert(sub.drop_last() =~= screens@.subrange(0, k as int));
        assert(sub.last() == screens@[k as int]);
        if screens[k].active {
            active.push(screens[k].copy());
        } else if default.is_none() {
            default = Some(screens[k].copy());
        }
        k = k + 1;
    }
    assert(screens@.subrange(0, screens@.len() as int) =~= screens@);
    (active, default)
}

// ---- the plan of every backend ----

/// What to do to apply a snapshot whose screens all have an image and a mode.
pub enum ApplyPlan {
    /// Run the invocations in order, stopping at the first that fails.
    Run(Vec<Invocation>),
    /// Evaluate one script in the plasma shell.
    Script(String),
    /// Run `active` once; then, when `default` is given and differs from what
    /// cinnamon has stored, write both its mode and its image (see
    /// `cinnamon_default_writes`), and re-run `active` while
    /// `reapply_cinnamon` says so.
    Cinnamon { active: Invocation, default: Option<Screen> },
    /// Hand one image and mode to the single-wallpaper delegate.
    Delegate { path: String, mode: Mode },
}

pub open spec fn sway_plan(screens: Seq<Screen>, v: Seq<Invocation>) -> bool {
    &&& v.len() == screens.len()
    &&& forall|k: int| 0 <= k < v.len() ==> runs(#[trigger] v[k], sway_msg(), sway_set_args(screens[k]))
}

pub open spec fn xfce_plan(screens: Seq<Screen>, v: Seq<Invocation>) -> bool {
    &&& v.len() == 2 * screens.len()
    &&& forall|k: int|
        0 <= k < screens.len() ==> runs(
            #[trigger] v[2 * k],
            xfconf(),
            xfce_set_args(backdrop_property(screens[k].name@, "last-image"@), path_of(screens[k])),
        ) && runs(
            v[2 * k + 1],
            xfconf(),
            xfce_set_args(
                backdrop_property(screens[k].name@, "image-style"@),
                xfce_style_of(screens[k].mode->0),
            ),
        )
}

/// `plan` applies `screens` in `env`.
pub open spec fn plan_matches(env: Environment, screens: Seq<Screen>, plan: ApplyPlan) -> bool {
    match env {
        Environment::X11 => plan matches ApplyPlan::Run(v) && v@.len() == 1 && runs(
            v@[0],
            painter(),
            x11_args(screens),
        ),
        Environment::Sway => plan matches ApplyPlan::Run(v) && sway_plan(screens, v@),
        Environment::Xfce => plan matches ApplyPlan::Run(v) && xfce_plan(screens, v@),
        Environment::Kde => plan matches ApplyPlan::Script(s) && s@ == kde_script(screens),
        Environment::Cinnamon => plan matches ApplyPlan::Cinnamon { active, default } && runs(
            active,
            painter(),
            x11_args(actives(screens)),
        ) && default == first_inactive(screens),
        _ => plan matches ApplyPlan::Delegate { path, mode } && path@ == path_of(screens[0]) && mode
            == screens[0].mode->0,
    }
}

/// The plan that applies `screens` in `env`.
pub fn plan_for_screens(env: Environment, screens: &Vec<Screen>) -> (r: ApplyPlan)
    requires
        all_assigned(screens@),
        delegates(env) ==> screens@.len() >= 1,
    ensures
        plan_matches(env, screens@, r),
{
    match env {
        Environment::X11 => {
            let inv = x11_invocation(screens);
            let v = vec![inv];
            ApplyPlan::Run(v)
        },
        Environment::Sway => ApplyPlan::Run(sway_invocations(screens)),
        Environment::Xfce => ApplyPlan::Run(xfce_invocations(screens)),
        Environment::Kde => ApplyPlan::Script(kde_set_script(screens)),
        Environment::Cinnamon => {
            let (active, default) = split_default(screens);
            proof {
                lemma_actives_assigned(screens@);
            }
            ApplyPlan::Cinnamon { active: x11_invocation(&active), default }
        },
        _ => {
            let first = &screens[0];
            assert(screens@[0].wallpaper is Some && screens@[0].mode is Some);
            ApplyPlan::Delegate { path: first.wallpaper.as_ref().unwrap().clone(), mode: first.mode.unwrap() }
        },
    }
}

// ---- the store that cinnamon reads its default from ----

pub open spec fn dconf() -> Seq<char> {
    "dconf"@
}

pub open spec fn cinnamon_uri_key() -> Seq<char> {
    "/org/cinnamon/desktop/background/picture-uri"@
}

pub open spec fn cinnamon_options_key() -> Seq<char> {
    "/org/cinnamon/desktop/background/picture-options"@
}

fn dconf_call(verb: &str, key: &str, value: Option<String>) -> (r: Invocation)
    ensures
        value is None ==> runs(r, dconf(), seq![verb@, key@]),
        value matches Some(v) ==> runs(r, dconf(), seq![verb@, key@, v@]),
{
    let mut args: Vec<String> = Vec::new();
    push_str(&mut args, verb);
    push_str(&mut args, key);
    let ghost two = texts(args@);
    match value {
        Some(v) => {
            let ghost text = v@;
            push_string(&mut args, v);
            assert(texts(args@) =~= seq![verb@, key@, text]);
        },
        None => {
            assert(two =~= seq![verb@, key@]);
        },
    }
    invocation("dconf", args)
}

/// The query of the stored default image.
pub fn cinnamon_uri_query() -> (r: Invocation)
    ensures
        runs(r, dconf(), seq!["read"@, cinnamon_uri_key()]),
{
    dconf_call("read", "/org/cinnamon/desktop/background/picture-uri", None)
}

/// The query of the stored default mode.
pub fn cinnamon_options_query() -> (r: Invocation)
    ensures
        runs(r, dconf(), seq!["read"@, cinnamon_options_key()]),
{
    dconf_call("read", "/org/cinnamon/desktop/background/picture-options", None)
}

/// Whether two optional strings hold the same characters.
pub open spec fn same_text(a: Option<String>, b: Option<String>) -> bool {
    match (a, b) {
        (Some(x), Some(y)) => x@ == y@,
        (None, None) => true,
        _ => false,
    }
}

fn same_opt_text(a: &Option<String>, b: &Option<String>) -> (r: bool)
    ensures
        r == same_text(*a, *b),
{
    match (a, b) {
        (Some(x), Some(y)) => *x == *y,
        (None, None) => true,
        _ => false,
    }
}

fn same_mode(a: Option<Mode>, b: Option<Mode>) -> (r: bool)
    ensures
        r == (a == b),
{
    match (a, b) {
        (Some(x), Some(y)) => x == y,
        (None, None) => true,
        _ => false,
    }
}

/// The stored value of a mode: its cinnamon name in single quotes.
pub open spec fn cinnamon_options_value(m: Mode) -> Seq<char> {
    "'"@ + cinnamon_name_of(cinnamon_of(m)) + "'"@
}

/// The stored value of an image: its path as a quoted `file://` URI.
pub open spec fn cinnamon_uri_value(path: Seq<char>) -> Seq<char> {
    "'file://"@ + path + "'"@
}

/// Whether cinnamon's stored default (`current`) differs from `target`.
pub open spec fn default_changed(target: Screen, current: Screen) -> bool {
    target.mode != current.mode || !same_text(target.wallpaper, current.wallpaper)
}

/// The writes that bring cinnamon's stored default (`current`) in line with
/// `target`: none when they agree, else both keys, the mode first.
pub fn cinnamon_default_writes(target: &Screen, current: &Screen) -> (r: Vec<Invocation>)
    requires
        target.wallpaper is Some,
        target.mode is Some,
    ensures
        !default_changed(*target, *current) ==> r@.len() == 0,
        default_changed(*target, *current) ==> {
            &&& r@.len() == 2
            &&& runs(
                r@[0],
                dconf(),
                seq!["write"@, cinnamon_options_key(), cinnamon_options_value(target.mode->0)],
            )
            &&& runs(
                r@[1],
                dconf(),
                seq!["write"@, cinnamon_uri_key(), cinnamon_uri_value(path_of(*target))],
            )
        },
{
    let mut r: Vec<Invocation> = Vec::new();
    if !same_mode(target.mode, current.mode) || !same_opt_text(&target.wallpaper, &current.wallpaper) {
        let options = String::from_str("'").concat(CinnamonMode::from_mode(target.mode.unwrap()).name()).concat(
            "'",
        );
        r.push(dconf_call("write", "/org/cinnamon/desktop/background/picture-options", Some(options)));
        let uri = String::from_str("'file://").concat(target.wallpaper.as_ref().unwrap().as_str()).concat(
            "'",
        );
        r.push(dconf_call("write", "/org/cinnamon/desktop/background/picture-uri", Some(uri)));
    }
    r
}

/// How long, in milliseconds, the painter is re-run after the stored default
/// changed: cinnamon repaints its stored image for a while and would
/// otherwise win.
pub const CINNAMON_REAPPLY_MS: u64 = 900;

/// Whether to run the painter once more, `elapsed_ms` after the first run.
pub fn reapply_cinnamon(changed: bool, elapsed_ms: u64) -> (r: bool)
    ensures
        r == (changed && elapsed_ms < CINNAMON_REAPPLY_MS),
{
    changed && elapsed_ms < CINNAMON_REAPPLY_MS
}

// ---- the queries that discover screens ----

/// The listing of all xfce desktop properties.
pub fn xfce_list_query() -> (r: Invocation)
    ensures
        runs(r, xfconf(), seq!["--channel"@, "xfce4-desktop"@, "--list"@]),
{
    let mut args: Vec<String> = Vec::new();
    push_str(&mut args, "--channel");
    push_str(&mut args, "xfce4-desktop");
    push_str(&mut args, "--list");
    assert(texts(args@) =~= seq!["--channel"@, "xfce4-desktop"@, "--list"@]);
    invocation("xfconf-query", args)
}

/// The query of the value of one listed key.
pub fn xfce_property_query(key: &BackdropKey) -> (r: Invocation)
    ensures
        runs(r, xfconf(), seq!["--channel"@, "xfce4-desktop"@, "-p"@, "/backdrop/"@ + key.property@]),
{
    let mut args: Vec<String> = Vec::new();
    push_str(&mut args, "--channel");
    push_str(&mut args, "xfce4-desktop");
    push_str(&mut args, "-p");
    push_string(&mut args, String::from_str("/backdrop/").concat(key.property.as_str()));
    assert(texts(args@) =~= seq!["--channel"@, "xfce4-desktop"@, "-p"@, "/backdrop/"@ + key.property@]);
    invocation("xfconf-query", args)
}

/// The query of sway's outputs, answered in JSON.
pub fn sway_outputs_query() -> (r: Invocation)
    ensures
        runs(r, sway_msg(), seq!["-t"@, "get_outputs"@]),
{
    let mut args: Vec<String> = Vec::new();
    push_str(&mut args, "-t");
    push_str(&mut args, "get_outputs");
    assert(texts(args@) =~= seq!["-t"@, "get_outputs"@]);
    invocation("swaymsg", args)
}

} // verus!
