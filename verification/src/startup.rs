//! Starting up: where the browser keeps its files, what it opens with, and how it fits in with the
//! system.

use vstd::prelude::*;
use vstd::string::*;

use crate::address;
use crate::sandbox;
use crate::session;
use crate::settings;
use crate::settings::{Catalog, CatalogView, Settings, SettingsView, ThemeView};
use crate::text;

verus! {

// ---------------------------------------------------------------------------
// Files
// ---------------------------------------------------------------------------

/// A name under a directory: a slash comes between, unless the directory is empty or ends in one.
/// A name that starts at the root stands alone.
pub open spec fn joined_path(base: Seq<char>, name: Seq<char>) -> Seq<char> {
    if name.len() > 0 && name[0] == '/' {
        name
    } else if base.len() == 0 || base.last() == '/' {
        base + name
    } else {
        base + "/"@ + name
    }
}

fn join_path(base: &str, name: &str) -> (r: String)
    ensures
        r@ == joined_path(base@, name@),
{
    let n: Vec<char> = text::chars_of(name);
    if n.len() > 0 && n[0] == '/' {
        return name.to_owned();
    }
    let mut out: String = base.to_owned();
    let v: Vec<char> = text::chars_of(base);
    if v.len() > 0 && v[v.len() - 1] != '/' {
        out.append("/");
    }
    out.append(name);
    out
}

/// The text inside an optional reference.
pub open spec fn given(o: Option<&str>) -> Option<Seq<char>> {
    match o {
        Some(s) => Some(s@),
        None => None,
    }
}

/// The file of this name in the browser's own directory, which is under the user's directory for
/// settings, or else under `.config` in their home. Without either there is none.
pub open spec fn own_file(xdg: Option<Seq<char>>, home: Option<Seq<char>>, name: Seq<char>) -> Option<
    Seq<char>,
> {
    match own_dir(xdg, home) {
        Some(d) => Some(joined_path(d, name)),
        None => None,
    }
}

/// The file of this name in the browser's own directory.
pub fn config_file(xdg: Option<&str>, home: Option<&str>, name: &str) -> (r: Option<String>)
    ensures
        address::optional_text(r) == own_file(given(xdg), given(home), name@),
{
    match config_dir(xdg, home) {
        Some(d) => Some(join_path(d.as_str(), name)),
        None => None,
    }
}

// ---------------------------------------------------------------------------
// The process
// ---------------------------------------------------------------------------

/// What a process was started for.
#[derive(Debug)]
pub enum Launch {
    /// To run a page, for the browser that it reaches by this token.
    Content(String),
    /// To run a page, but no token was given.
    NoToken,
    /// To test the sandbox.
    SelfTest,
    /// To be the browser.
    Browser,
}

/// What a process was started for, by its arguments, of which the first is its own name.
pub open spec fn is_launch(args: Seq<Seq<char>>, l: Launch) -> bool {
    if args.len() > 1 && args[1] == "--content-process"@ {
        if args.len() > 2 {
            l matches Launch::Content(t) && t@ == args[2]
        } else {
            l is NoToken
        }
    } else if args.len() > 1 && args[1] == "--sandbox-selftest"@ {
        l is SelfTest
    } else {
        l is Browser
    }
}

/// What a process was started for.
pub fn desktop_main(args: &Vec<String>) -> (r: Launch)
    ensures
        is_launch(text::texts(args@), r),
{
    if args.len() > 1 {
        if text::same(args[1].as_str(), "--content-process") {
            if args.len() > 2 {
                return Launch::Content(args[2].clone());
            }
            return Launch::NoToken;
        }
        if text::same(args[1].as_str(), "--sandbox-selftest") {
            proof {
                reveal_strlit("--content-process");
                reveal_strlit("--sandbox-selftest");
            }
            return Launch::SelfTest;
        }
    }
    Launch::Browser
}

/// The control socket that the environment names: `SWERVE_IPC`, or else `NAVGATOR_IPC`.
pub open spec fn socket_named(swerve: Option<Seq<char>>, navgator: Option<Seq<char>>) -> Option<
    Seq<char>,
> {
    if swerve is Some {
        swerve
    } else {
        navgator
    }
}

/// The control socket that the environment names, by the values of `SWERVE_IPC` and
/// `NAVGATOR_IPC`.
pub fn control_socket(swerve: Option<&str>, navgator: Option<&str>) -> (r: Option<String>)
    ensures
        address::optional_text(r) == socket_named(given(swerve), given(navgator)),
{
    match swerve {
        Some(s) => Some(s.to_owned()),
        None => match navgator {
            Some(s) => Some(s.to_owned()),
            None => None,
        },
    }
}

/// How the engine is set up.
#[derive(Debug)]
pub struct EngineOptions {
    /// Pages run in processes of their own.
    pub multiprocess: bool,
    /// Those processes are confined by the system.
    pub sandbox: bool,
    /// Where cookies and the cache are kept, if anywhere.
    pub config_dir: Option<String>,
}

/// The browser's own directory.
pub open spec fn own_dir(xdg: Option<Seq<char>>, home: Option<Seq<char>>) -> Option<Seq<char>> {
    match xdg {
        Some(x) => Some(joined_path(x, "navgator"@)),
        None => match home {
            Some(h) => Some(joined_path(joined_path(h, ".config"@), "navgator"@)),
            None => None,
        },
    }
}

/// The browser's own directory.
pub fn config_dir(xdg: Option<&str>, home: Option<&str>) -> (r: Option<String>)
    ensures
        address::optional_text(r) == own_dir(given(xdg), given(home)),
{
    let base: String = match xdg {
        Some(x) => x.to_owned(),
        None => match home {
            Some(h) => join_path(h, ".config"),
            None => {
                return None;
            },
        },
    };
    Some(join_path(base.as_str(), "navgator"))
}

/// How the engine is set up: pages are kept apart unless a single process is asked for, and
/// confined only where that can be done and is asked for.
pub fn engine_options(
    single_process: bool,
    supported: bool,
    sandbox_asked: bool,
    xdg: Option<&str>,
    home: Option<&str>,
) -> (r: EngineOptions)
    ensures
        r.multiprocess == !single_process,
        r.sandbox == (supported && sandbox_asked),
        address::optional_text(r.config_dir) == own_dir(given(xdg), given(home)),
{
    EngineOptions {
        multiprocess: !single_process,
        sandbox: sandbox::sandbox_enabled(supported, sandbox_asked),
        config_dir: config_dir(xdg, home),
    }
}

// ---------------------------------------------------------------------------
// The first window
// ---------------------------------------------------------------------------

/// What the first window opens with: nothing of the saved session where an address was given, or
/// else the tabs of both panes.
pub fn restored_session(address_given: bool, file: Option<&str>) -> (r: (Vec<String>, Vec<String>))
    ensures
        match file {
            Some(f) => if address_given {
                r.0@.len() == 0 && r.1@.len() == 0
            } else {
                text::texts(r.0@) == session::read_session(f@).left && text::texts(r.1@)
                    == session::read_session(f@).right
            },
            None => r.0@.len() == 0 && r.1@.len() == 0,
        },
{
    if address_given {
        return (Vec::new(), Vec::new());
    }
    match file {
        Some(f) => session::parse_session(f),
        None => (Vec::new(), Vec::new()),
    }
}

/// The tabs that a window opens with: those asked for, or the first page.
pub open spec fn opening_tabs(urls: Seq<Seq<char>>, first_page: Seq<char>) -> Seq<Seq<char>> {
    if urls.len() == 0 {
        seq![first_page]
    } else {
        urls
    }
}

/// The tabs that a window opens with.
pub fn open_window(urls: Vec<String>, first_page: &str) -> (r: Vec<String>)
    ensures
        text::texts(r@) == opening_tabs(text::texts(urls@), first_page@),
        r@.len() > 0,
{
    assert(text::texts(urls@).len() == urls@.len());
    if urls.len() == 0 {
        let mut out: Vec<String> = Vec::new();
        out.push(first_page.to_owned());
        assert(text::texts(out@) =~= seq![first_page@]);
        out
    } else {
        urls
    }
}

/// Whether the system's look is dark: as the environment says, or else as the window does.
pub open spec fn prefers_dark(forced: Option<Seq<char>>, window_is_dark: bool) -> bool {
    match forced {
        Some(s) => s == "dark"@ || (s != "light"@ && window_is_dark),
        None => window_is_dark,
    }
}

/// Is the system's look dark?
pub fn os_prefers_dark(forced: Option<&str>, window_is_dark: bool) -> (r: bool)
    ensures
        r == prefers_dark(given(forced), window_is_dark),
{
    match forced {
        Some(s) => {
            if text::same(s, "dark") {
                true
            } else if text::same(s, "light") {
                false
            } else {
                window_is_dark
            }
        },
        None => window_is_dark,
    }
}

/// The settings once the look has followed the system: a light look becomes the dark one, and the
/// page colours with it, where the system is dark and the user has not chosen.
pub open spec fn followed(
    s: SettingsView,
    system_is_dark: bool,
    c: CatalogView,
    dark_base: Seq<char>,
) -> SettingsView {
    if !s.theme_base_explicit && system_is_dark && settings::is_light(c, s.theme.base) {
        settings::in_look(
            SettingsView { theme: ThemeView { base: dark_base, ..s.theme }, ..s },
            c,
        )
    } else {
        s
    }
}

impl Settings {
    /// Lets the look follow the system, once at the start.
    pub fn follow_system(&mut self, system_is_dark: bool, c: &Catalog, dark_base: &str)
        ensures
            final(self)@ == followed(old(self)@, system_is_dark, c@, dark_base@),
    {
        if !self.theme_base_explicit && system_is_dark && c.is_light(self.theme.base.as_str()) {
            self.theme.base = dark_base.to_owned();
            self.sync_legacy_theme(c);
        }
    }
}

/// A look that the user has chosen stays, whatever the system's is.
pub proof fn chosen_looks_stay(
    s: SettingsView,
    system_is_dark: bool,
    c: CatalogView,
    dark_base: Seq<char>,
)
    requires
        s.theme_base_explicit,
    ensures
        followed(s, system_is_dark, c, dark_base) == s,
{
}

// ---------------------------------------------------------------------------
// The default browser
// ---------------------------------------------------------------------------

/// The launcher that makes the browser known to the desktop.
pub open spec fn launcher_text(exe: Seq<char>) -> Seq<char> {
    "[Desktop Entry]\nVersion=1.0\nName=NavGator\nComment=A fast, private web browser\nExec="@ + exe
        + " %u\nTerminal=false\nType=Application\nCategories=Network;WebBrowser;\nMimeType=x-scheme-handler/http;x-scheme-handler/https;text/html;\nStartupNotify=true\n"@
}

/// The launcher that makes the browser known to the desktop.
pub fn desktop_entry(exe: &str) -> (r: String)
    ensures
        r@ == launcher_text(exe@),
{
    let mut out: String = "[Desktop Entry]\nVersion=1.0\nName=NavGator\nComment=A fast, private web browser\nExec=".to_owned();
    out.append(exe);
    out.append(
        " %u\nTerminal=false\nType=Application\nCategories=Network;WebBrowser;\nMimeType=x-scheme-handler/http;x-scheme-handler/https;text/html;\nStartupNotify=true\n",
    );
    out
}

/// How far the browser got in making itself the default one.
#[derive(Clone, Copy, Debug, PartialEq, Eq, Structural)]
pub enum DefaultStep {
    NoBinary,
    NoHome,
    NoDirectory,
    NotWritten,
    Registered,
}

/// What the user is told of making the browser the default one.
pub fn default_message(s: DefaultStep) -> (r: &'static str)
    ensures
        r@ == match s {
            DefaultStep::NoBinary => "Could not locate the NavGator binary."@,
            DefaultStep::NoHome => "No HOME directory."@,
            DefaultStep::NoDirectory => "Could not create ~/.local/share/applications."@,
            DefaultStep::NotWritten => "Could not write navgator.desktop."@,
            DefaultStep::Registered => "NavGator is now your default browser — http/https links will open here."@,
        },
{
    match s {
        DefaultStep::NoBinary => "Could not locate the NavGator binary.",
        DefaultStep::NoHome => "No HOME directory.",
        DefaultStep::NoDirectory => "Could not create ~/.local/share/applications.",
        DefaultStep::NotWritten => "Could not write navgator.desktop.",
        DefaultStep::Registered => "NavGator is now your default browser — http/https links will open here.",
    }
}

// ---------------------------------------------------------------------------
// The build number
// ---------------------------------------------------------------------------

/// The build number: the one given, if it is not blank, or else the count of commits as it was
/// printed, if any, or else 0.
pub open spec fn build_text(given: Option<Seq<char>>, commits: Option<Seq<char>>) -> Seq<char> {
    if given is Some && text::trimmed(given->0).len() > 0 {
        given->0
    } else if commits is Some && text::trimmed(commits->0).len() > 0 {
        text::trimmed(commits->0)
    } else {
        "0"@
    }
}

/// The build number.
pub fn build_number(given_number: Option<&str>, commits: Option<&str>) -> (r: String)
    ensures
        r@ == build_text(given(given_number), given(commits)),
{
    match given_number {
        Some(s) => {
            if text::trim(s).as_str().unicode_len() > 0 {
                return s.to_owned();
            }
        },
        None => {},
    }
    match commits {
        Some(c) => {
            let n: String = text::trim(c);
            if n.as_str().unicode_len() > 0 {
                return n;
            }
        },
        None => {},
    }
    "0".to_owned()
}

// ---------------------------------------------------------------------------
// Fonts
// ---------------------------------------------------------------------------

/// The fonts of a family with one of them first, and only there.
pub open spec fn led_by(primary: Seq<char>, base: Seq<Seq<char>>) -> Seq<Seq<char>> {
    seq![primary] + others(primary, base)
}

/// The fonts other than this one, in order.
pub open spec fn others(primary: Seq<char>, base: Seq<Seq<char>>) -> Seq<Seq<char>>
    decreases base.len(),
{
    if base.len() == 0 {
        Seq::empty()
    } else if base.last() == primary {
        others(primary, base.drop_last())
    } else {
        others(primary, base.drop_last()).push(base.last())
    }
}

/// The fonts of a family with one of them first, and only there.
pub fn with_primary(primary: &str, base: &Vec<String>) -> (r: Vec<String>)
    ensures
        text::texts(r@) == led_by(primary@, text::texts(base@)),
{
    let ghost all = text::texts(base@);
    let mut out: Vec<String> = Vec::new();
    out.push(primary.to_owned());
    let mut i: usize = 0;
    assert(text::texts(out@) =~= led_by(primary@, all.take(0)));
    while i < base.len()
        invariant
            i <= base@.len(),
            all == text::texts(base@),
            text::texts(out@) == led_by(primary@, all.take(i as int)),
        decreases base@.len() - i,
    {
        let ghost before = text::texts(out@);
        assert(all.take(i + 1).drop_last() =~= all.take(i as int));
        assert(all.take(i + 1).last() == all[i as int]);
        if !text::same(base[i].as_str(), primary) {
            out.push(base[i].clone());
            assert(text::texts(out@) =~= before.push(all[i as int]));
            assert(led_by(primary@, all.take(i + 1)) =~= before.push(all[i as int]));
        }
        i = i + 1;
    }
    assert(all.take(base@.len() as int) =~= all);
    out
}

/// The fonts of a family with others put before them, in order.
pub fn prepend(base: Vec<String>, keys: &Vec<String>) -> (r: Vec<String>)
    ensures
        text::texts(r@) == text::texts(keys@) + text::texts(base@),
{
    let mut rest: Vec<String> = base;
    let ghost b = text::texts(rest@);
    let mut out: Vec<String> = text::copy_strings(keys);
    let ghost k = text::texts(out@);
    out.append(&mut rest);
    assert(text::texts(out@) =~= k + b);
    out
}

// ---------------------------------------------------------------------------
// The engine's features
// ---------------------------------------------------------------------------

/// What pages may use that the engine leaves off: programming interfaces.
pub open spec fn script_features() -> Seq<Seq<char>> {
    seq![
        "dom_intersection_observer_enabled"@,
        "dom_adoptedstylesheet_enabled"@,
        "dom_fontface_enabled"@,
        "dom_web_animations_enabled"@,
        "dom_visual_viewport_enabled"@,
        "dom_async_clipboard_enabled"@,
        "dom_permissions_enabled"@,
        "dom_notification_enabled"@,
        "dom_geolocation_enabled"@,
    ]
}

/// What pages may use that the engine leaves off: storage, media and drawing.
pub open spec fn media_features() -> Seq<Seq<char>> {
    seq![
        "dom_indexeddb_enabled"@,
        "dom_webgl2_enabled"@,
        "dom_mediasource_enabled"@,
        "dom_eme_enabled"@,
        "dom_offscreen_canvas_enabled"@,
        "dom_sanitizer_enabled"@,
        "dom_exec_command_enabled"@,
        "dom_storage_manager_api_enabled"@,
        "dom_cookiestore_enabled"@,
        "dom_wakelock_enabled"@,
    ]
}

/// What pages may use that the engine leaves off: layout.
pub open spec fn layout_features() -> Seq<Seq<char>> {
    seq![
        "layout_unimplemented"@,
        "layout_grid_enabled"@,
        "layout_container_queries_enabled"@,
        "layout_columns_enabled"@,
        "layout_variable_fonts_enabled"@,
        "layout_writing_mode_enabled"@,
    ]
}

fn list_script_features() -> (r: Vec<&'static str>)
    ensures
        Seq::new(r@.len(), |i: int| r@[i]@) == script_features(),
{
    let out: Vec<&'static str> = vec![
        "dom_intersection_observer_enabled",
        "dom_adoptedstylesheet_enabled",
        "dom_fontface_enabled",
        "dom_web_animations_enabled",
        "dom_visual_viewport_enabled",
        "dom_async_clipboard_enabled",
        "dom_permissions_enabled",
        "dom_notification_enabled",
        "dom_geolocation_enabled",
    ];
    assert(Seq::new(out@.len(), |i: int| out@[i]@) =~= script_features());
    out
}

fn list_media_features() -> (r: Vec<&'static str>)
    ensures
        Seq::new(r@.len(), |i: int| r@[i]@) == media_features(),
{
    let out: Vec<&'static str> = vec![
        "dom_indexeddb_enabled",
        "dom_webgl2_enabled",
        "dom_mediasource_enabled",
        "dom_eme_enabled",
        "dom_offscreen_canvas_enabled",
        "dom_sanitizer_enabled",
        "dom_exec_command_enabled",
        "dom_storage_manager_api_enabled",
        "dom_cookiestore_enabled",
        "dom_wakelock_enabled",
    ];
    assert(Seq::new(out@.len(), |i: int| out@[i]@) =~= media_features());
    out
}

fn list_layout_features() -> (r: Vec<&'static str>)
    ensures
        Seq::new(r@.len(), |i: int| r@[i]@) == layout_features(),
{
    let out: Vec<&'static str> = vec![
        "layout_unimplemented",
        "layout_grid_enabled",
        "layout_container_queries_enabled",
        "layout_columns_enabled",
        "layout_variable_fonts_enabled",
        "layout_writing_mode_enabled",
    ];
    assert(Seq::new(out@.len(), |i: int| out@[i]@) =~= layout_features());
    out
}

/// The engine's features that are switched on.
pub fn navgator_preferences() -> (r: Vec<&'static str>)
    ensures
        Seq::new(r@.len(), |i: int| r@[i]@) == script_features() + media_features()
            + layout_features(),
{
    let mut out: Vec<&'static str> = list_script_features();
    let mut media: Vec<&'static str> = list_media_features();
    let mut layout: Vec<&'static str> = list_layout_features();
    let ghost a = Seq::new(out@.len(), |i: int| out@[i]@);
    let ghost b = Seq::new(media@.len(), |i: int| media@[i]@);
    let ghost c = Seq::new(layout@.len(), |i: int| layout@[i]@);
    out.append(&mut media);
    out.append(&mut layout);
    assert(Seq::new(out@.len(), |i: int| out@[i]@) =~= a + b + c);
    out
}

// ---------------------------------------------------------------------------
// Laws
// ---------------------------------------------------------------------------

/// The browser's files lie in a directory of their own: under the directory for settings where one is
/// named, and else under `.config` in the user's home.
pub proof fn files_lie_in_their_own_directory(dir: Seq<char>, other: Option<Seq<char>>, name: Seq<char>)
    requires
        dir.len() > 0 && dir.last() != '/',
        name.len() > 0 && name[0] != '/',
    ensures
        own_file(Some(dir), other, name) == Some(dir + "/"@ + "navgator"@ + "/"@ + name),
        own_file(None, Some(dir), name) == Some(
            dir + "/"@ + ".config"@ + "/"@ + "navgator"@ + "/"@ + name,
        ),
        own_file(None, None, name) is None,
{
    reveal_strlit("navgator");
    reveal_strlit(".config");
    reveal_strlit("/");
    assert("navgator"@.len() == 8 && "navgator"@[0] == 'n' && "navgator"@[7] == 'r');
    assert(".config"@.len() == 7 && ".config"@[0] == '.' && ".config"@[6] == 'g');
    let a = dir + "/"@ + "navgator"@;
    assert(a.last() == 'r');
    let b = dir + "/"@ + ".config"@;
    assert(b.last() == 'g');
    let c = b + "/"@ + "navgator"@;
    assert(c.last() == 'r');
}

/// A process runs a page where it is told to, for the browser of the token that follows; it tests the
/// sandbox where it is told to; and with any other word, or none, it is the browser.
pub proof fn processes_do_what_they_are_told(args: Seq<Seq<char>>, l: Launch)
    requires
        is_launch(args, l),
    ensures
        args.len() > 2 && args[1] == "--content-process"@ <==> l is Content,
        l matches Launch::Content(t) ==> t@ == args[2],
        args.len() == 2 && args[1] == "--content-process"@ <==> l is NoToken,
        args.len() > 1 && args[1] == "--sandbox-selftest"@ <==> l is SelfTest,
        args.len() <= 1 ==> l is Browser,
{
    reveal_strlit("--content-process");
    reveal_strlit("--sandbox-selftest");
    assert("--content-process"@[2] == 'c' && "--sandbox-selftest"@[2] == 's');
}

/// The first name that the environment gives the control socket counts, and the second only where the
/// first is missing.
pub proof fn the_first_socket_counts(a: Seq<char>, b: Option<Seq<char>>)
    ensures
        socket_named(Some(a), b) == Some(a),
        socket_named(None, b) == b,
{
}

/// A window opens with the tabs that it is asked for, and where it is asked for none, with the first
/// page alone.
pub proof fn windows_open_with_what_was_asked_for(urls: Seq<Seq<char>>, first_page: Seq<char>)
    ensures
        urls.len() > 0 ==> opening_tabs(urls, first_page) == urls,
        urls.len() == 0 ==> opening_tabs(urls, first_page).len() == 1 && opening_tabs(
            urls,
            first_page,
        )[0] == first_page,
{
}

/// The environment can force a look, dark or light; anything else that it says counts for nothing, and
/// the window decides.
pub proof fn a_forced_look_counts(s: Seq<char>, window_is_dark: bool)
    ensures
        prefers_dark(Some("dark"@), window_is_dark),
        !prefers_dark(Some("light"@), window_is_dark),
        s != "dark"@ && s != "light"@ ==> prefers_dark(Some(s), window_is_dark) == window_is_dark,
        prefers_dark(None, window_is_dark) == window_is_dark,
{
    reveal_strlit("dark");
    reveal_strlit("light");
    assert("dark"@[0] == 'd' && "light"@[0] == 'l');
}

/// A light look that nobody chose becomes the dark one where the system is dark; a dark one stays, and
/// all stays where the system is light. The rest of the settings that the look does not bring stays too.
pub proof fn light_looks_turn_dark_with_the_system(s: SettingsView, c: CatalogView, dark_base: Seq<char>)
    requires
        !s.theme_base_explicit,
    ensures
        settings::is_light(c, s.theme.base) ==> followed(s, true, c, dark_base).theme.base == dark_base,
        !settings::is_light(c, s.theme.base) ==> followed(s, true, c, dark_base) == s,
        followed(s, false, c, dark_base) == s,
        followed(s, true, c, dark_base).search == s.search,
        followed(s, true, c, dark_base).block_ads == s.block_ads,
        followed(s, true, c, dark_base).wallpaper == s.wallpaper,
{
}

/// The first font of a family is the one that was asked for; the others follow in their order, without
/// it, and none of them is lost.
pub proof fn the_chosen_font_leads(primary: Seq<char>, base: Seq<Seq<char>>)
    ensures
        led_by(primary, base).len() > 0,
        led_by(primary, base)[0] == primary,
        led_by(primary, base).skip(1) == base.filter(|f: Seq<char>| f != primary),
    decreases base.len(),
{
    reveal(Seq::filter);
    assert(led_by(primary, base).skip(1) =~= others(primary, base));
    if base.len() > 0 {
        the_chosen_font_leads(primary, base.drop_last());
        assert(led_by(primary, base.drop_last()).skip(1) =~= others(primary, base.drop_last()));
    }
}

/// The build number is the one given, as it was given; without one it is the count of commits without
/// the white space round it; without either it is 0.
pub proof fn the_given_build_number_counts(g: Seq<char>, c: Seq<char>, commits: Option<Seq<char>>)
    ensures
        text::trimmed(g).len() > 0 ==> build_text(Some(g), commits) == g,
        text::trimmed(c).len() > 0 ==> build_text(None, Some(c)) == text::trimmed(c),
        text::trimmed(c).len() == 0 ==> build_text(None, Some(c)) == "0"@,
        text::trimmed(g).len() == 0 ==> build_text(Some(g), commits) == build_text(None, commits),
        build_text(None, None) == "0"@,
{
}

} // verus!
