//! Localization: message catalogs for each locale, with the source locale to fall back on.

use vstd::prelude::*;
use vstd::string::*;

use crate::address;
use crate::sources;
use crate::text;

verus! {

/// The source locale: what another catalog lacks is looked up here.
pub const FALLBACK: &'static str = "en-US";

/// A value put into a message.
pub enum ArgValue {
    Text(String),
    Number(i64),
}

/// `ArgValue` as mathematical values.
pub enum ArgView {
    Text(Seq<char>),
    Number(int),
}

impl View for ArgValue {
    type V = ArgView;

    open spec fn view(&self) -> ArgView {
        match self {
            ArgValue::Text(s) => ArgView::Text(s@),
            ArgValue::Number(n) => ArgView::Number(*n as int),
        }
    }
}

/// The values put into a message, by name.
pub open spec fn arg_views(a: Seq<(String, ArgValue)>) -> Seq<(Seq<char>, ArgView)> {
    Seq::new(a.len(), |i: int| (a[i].0@, a[i].1@))
}

pub open spec fn optional_args(a: Option<&Vec<(String, ArgValue)>>) -> Option<
    Seq<(Seq<char>, ArgView)>,
> {
    match a {
        Some(v) => Some(arg_views(v@)),
        None => None,
    }
}

// ---------------------------------------------------------------------------
// The message catalogs
// ---------------------------------------------------------------------------

/// A catalog of messages for one language, from the `fluent` crate.
#[verifier::external_type_specification]
#[verifier::external_body]
#[verifier::reject_recursive_types(R)]
#[verifier::reject_recursive_types(M)]
pub struct ExFluentBundle<R, M>(fluent_bundle::bundle::FluentBundle<R, M>);

/// The parsed source of a catalog, from the `fluent` crate.
#[verifier::external_type_specification]
#[verifier::external_body]
pub struct ExFluentResource(fluent_bundle::FluentResource);

/// The number and plural formatters of a language, from the `intl-memoizer` crate.
#[verifier::external_type_specification]
#[verifier::external_body]
pub struct ExIntlLangMemoizer(intl_memoizer::IntlLangMemoizer);

/// A catalog of messages for one language.
pub type Bundle = fluent_bundle::bundle::FluentBundle<
    fluent_bundle::FluentResource,
    intl_memoizer::IntlLangMemoizer,
>;

/// What a catalog holds: the language it formats for and the source of its messages.
pub uninterp spec fn bundle_contents(b: Bundle) -> (Seq<char>, Seq<char>);

/// Builds a catalog with `fluent_bundle::FluentBundle::new`, `set_use_isolating(false)`,
/// `FluentResource::try_new` and `add_resource`. It holds the messages of the source, as far as
/// they parse, for the language that the tag names; a tag that names none counts as the
/// undetermined language. Reading a source panics at an escaped code point that lacks digits before
/// a character beyond ASCII, and goes as deep as brackets lie in each other; sources with either are
/// left out.
#[verifier::external_body]
fn make_bundle(tag: &str, source: &str) -> (r: Bundle)
    requires
        sources::is_formattable(source@),
    ensures
        bundle_contents(r) == (tag@, source@),
{
    let language: unic_langid::LanguageIdentifier = tag.parse().unwrap_or_default();
    let resource = match fluent_bundle::FluentResource::try_new(source.to_string()) {
        Ok(resource) => resource,
        Err((resource, _)) => resource,
    };
    let mut bundle = fluent_bundle::FluentBundle::new(vec![language]);
    bundle.set_use_isolating(false);
    let _ = bundle.add_resource(resource);
    bundle
}

/// Whether `unic_langid::LanguageIdentifier` can be parsed from a text.
pub uninterp spec fn language_tag(tag: Seq<char>) -> bool;

/// Does a text name a language? By the parser of `unic_langid::LanguageIdentifier`; the answer
/// depends on the text alone.
#[verifier::external_body]
fn is_language_tag(tag: &str) -> (r: bool)
    ensures
        r == language_tag(tag@),
{
    tag.parse::<unic_langid::LanguageIdentifier>().is_ok()
}

/// What `FluentBundle::get_message` and `format_pattern` make of a message of a catalog with these
/// contents: the text and whether it was made without an error, or nothing where the catalog has
/// no such message or the message no value.
pub uninterp spec fn formatted(
    contents: (Seq<char>, Seq<char>),
    key: Seq<char>,
    args: Option<Seq<(Seq<char>, ArgView)>>,
) -> Option<(Seq<char>, bool)>;

/// Formats a message with `FluentBundle::get_message`, `FluentMessage::value` and
/// `FluentBundle::format_pattern`. The result depends on what the catalog holds, on the key and on
/// the values put in. It can panic where it chooses a plural form by a number with twenty or more
/// digits behind its point, and panics where more than a hundred placeables are met inside one that it
/// cannot name; sources that could lead there are left out.
#[verifier::external_body]
fn format_message(b: &Bundle, key: &str, args: Option<&Vec<(String, ArgValue)>>) -> (r: Option<
    (String, bool),
>)
    requires
        sources::is_formattable(bundle_contents(*b).1),
    ensures
        match r {
            Some(m) => formatted(bundle_contents(*b), key@, optional_args(args)) == Some(
                (m.0@, m.1),
            ),
            None => formatted(bundle_contents(*b), key@, optional_args(args)) is None,
        },
{
    let message = b.get_message(key)?;
    let pattern = message.value()?;
    let values = args.map(|list| {
        let mut out = fluent_bundle::FluentArgs::new();
        list.iter().for_each(|(k, v)| match v {
            ArgValue::Text(s) => out.set(k.as_str(), s.as_str()),
            ArgValue::Number(n) => out.set(k.as_str(), *n),
        });
        out
    });
    let mut errors = Vec::new();
    let text = b.format_pattern(pattern, values.as_ref(), &mut errors).into_owned();
    Some((text, errors.is_empty()))
}

// ---------------------------------------------------------------------------
// Translating
// ---------------------------------------------------------------------------

/// The catalogs and the active locale.
pub struct I18n {
    current: String,
    bundles: Vec<(String, Bundle)>,
}

/// `I18n` as mathematical values: the active locale, and each catalog's locale, language and
/// source.
pub struct I18nView {
    pub current: Seq<char>,
    pub catalogs: Seq<(Seq<char>, (Seq<char>, Seq<char>))>,
}

pub open spec fn catalog_views(b: Seq<(String, Bundle)>) -> Seq<
    (Seq<char>, (Seq<char>, Seq<char>)),
> {
    Seq::new(b.len(), |i: int| (b[i].0@, bundle_contents(b[i].1)))
}

impl I18n {
    #[verifier::type_invariant]
    closed spec fn inv(&self) -> bool {
        forall|i: int|
            0 <= i < self.bundles@.len() ==> sources::is_formattable(
                bundle_contents((#[trigger] self.bundles@[i]).1).1,
            )
    }
}

impl View for I18n {
    type V = I18nView;

    closed spec fn view(&self) -> I18nView {
        I18nView { current: self.current@, catalogs: catalog_views(self.bundles@) }
    }
}

/// The language that a locale's catalog formats for: the one it names, or that of the source
/// locale where it names none.
pub open spec fn language_for(tag: Seq<char>) -> Seq<char> {
    if language_tag(tag) {
        tag
    } else {
        FALLBACK@
    }
}

/// The catalogs of some sources.
pub open spec fn catalogs_of(sources: Seq<(Seq<char>, Seq<char>)>) -> Seq<
    (Seq<char>, (Seq<char>, Seq<char>)),
> {
    Seq::new(
        sources.len(),
        |i: int| (sources[i].0, (language_for(sources[i].0), sources[i].1)),
    )
}

/// The catalog of a locale; where a locale has several, the last.
pub open spec fn catalog_for(
    c: Seq<(Seq<char>, (Seq<char>, Seq<char>))>,
    tag: Seq<char>,
) -> Option<(Seq<char>, Seq<char>)>
    decreases c.len(),
{
    if c.len() == 0 {
        None
    } else if c.last().0 == tag {
        Some(c.last().1)
    } else {
        catalog_for(c.drop_last(), tag)
    }
}

/// A message in one locale.
pub open spec fn message_in(
    i: I18nView,
    tag: Seq<char>,
    key: Seq<char>,
    args: Option<Seq<(Seq<char>, ArgView)>>,
) -> Option<(Seq<char>, bool)> {
    match catalog_for(i.catalogs, tag) {
        Some(c) => formatted(c, key, args),
        None => None,
    }
}

/// What is shown of a message, given what the active locale and the source locale make of it: the
/// active locale's text if it was made without an error, or else the source locale's whatever its
/// errors, or else the key.
pub open spec fn chosen(
    active: Option<(Seq<char>, bool)>,
    active_is_source: bool,
    source: Option<(Seq<char>, bool)>,
    key: Seq<char>,
) -> Seq<char> {
    match active {
        Some((t, ok)) => if ok || active_is_source {
            t
        } else {
            match source {
                Some((t, _)) => t,
                None => key,
            }
        },
        None => match source {
            Some((t, _)) => t,
            None => key,
        },
    }
}

/// A message in the active locale.
pub open spec fn translated(
    i: I18nView,
    key: Seq<char>,
    args: Option<Seq<(Seq<char>, ArgView)>>,
) -> Seq<char> {
    chosen(
        message_in(i, i.current, key, args),
        i.current == FALLBACK@,
        message_in(i, FALLBACK@, key, args),
        key,
    )
}

/// A key that no catalog has is shown as it is.
pub proof fn unknown_keys_show_themselves(
    i: I18nView,
    key: Seq<char>,
    args: Option<Seq<(Seq<char>, ArgView)>>,
)
    requires
        message_in(i, i.current, key, args) is None,
        message_in(i, FALLBACK@, key, args) is None,
    ensures
        translated(i, key, args) == key,
{
}

/// Chooses what is shown of a message.
pub fn choose_message(
    active: Option<(String, bool)>,
    active_is_source: bool,
    source: Option<(String, bool)>,
    key: &str,
) -> (r: String)
    ensures
        r@ == chosen(message_view(active), active_is_source, message_view(source), key@),
{
    match active {
        Some(m) => {
            if m.1 || active_is_source {
                return m.0;
            }
        },
        None => {},
    }
    match source {
        Some(m) => m.0,
        None => key.to_owned(),
    }
}

pub open spec fn message_view(m: Option<(String, bool)>) -> Option<(Seq<char>, bool)> {
    match m {
        Some(x) => Some((x.0@, x.1)),
        None => None,
    }
}

impl I18n {
    /// Builds the catalogs from their sources, each with its locale. The source locale is active.
    /// There are none where a source holds a message that cannot be formatted.
    pub fn load(sources: &Vec<(String, String)>) -> (r: Option<I18n>)
        ensures
            r is Some <==> forall|i: int|
                0 <= i < sources@.len() ==> sources::is_formattable((#[trigger] sources@[i]).1@),
            r matches Some(i) ==> i@.current == FALLBACK@ && i@.catalogs == catalogs_of(
                address::pair_texts(sources@),
            ),
    {
        let ghost all = catalogs_of(address::pair_texts(sources@));
        let mut bundles: Vec<(String, Bundle)> = Vec::new();
        let mut i: usize = 0;
        assert(catalog_views(bundles@) =~= all.take(0));
        while i < sources.len()
            invariant
                i <= sources@.len(),
                all == catalogs_of(address::pair_texts(sources@)),
                catalog_views(bundles@) == all.take(i as int),
                bundles@.len() == i,
                forall|j: int| 0 <= j < i ==> sources::is_formattable((#[trigger] sources@[j]).1@),
                forall|j: int|
                    0 <= j < i ==> sources::is_formattable(bundle_contents((#[trigger] bundles@[j]).1).1),
            decreases sources@.len() - i,
        {
            let ghost before = catalog_views(bundles@);
            if !sources::can_format(sources[i].1.as_str()) {
                assert(!sources::is_formattable(sources@[i as int].1@));
                return None;
            }
            let tag: &str = sources[i].0.as_str();
            let b: Bundle = if is_language_tag(tag) {
                make_bundle(tag, sources[i].1.as_str())
            } else {
                make_bundle(FALLBACK, sources[i].1.as_str())
            };
            bundles.push((sources[i].0.clone(), b));
            assert(catalog_views(bundles@) =~= before.push(all[i as int]));
            assert(all.take(i + 1) =~= all.take(i as int).push(all[i as int]));
            i = i + 1;
        }
        assert(all.take(sources@.len() as int) =~= all);
        Some(I18n { current: FALLBACK.to_owned(), bundles })
    }

    fn find(&self, tag: &str) -> (r: Option<usize>)
        ensures
            match r {
                Some(i) => i < self.bundles@.len() && catalog_for(self@.catalogs, tag@) == Some(
                    bundle_contents(self.bundles@[i as int].1),
                ),
                None => catalog_for(self@.catalogs, tag@) is None,
            },
    {
        let ghost c = self@.catalogs;
        let mut i: usize = self.bundles.len();
        assert(c.take(i as int) =~= c);
        while i > 0
            invariant
                i <= self.bundles@.len(),
                c == catalog_views(self.bundles@),
                catalog_for(c, tag@) == catalog_for(c.take(i as int), tag@),
            decreases i,
        {
            assert(c.take(i as int).last() == c[i - 1]);
            assert(c.take(i as int).drop_last() =~= c.take(i - 1));
            if text::same(self.bundles[i - 1].0.as_str(), tag) {
                return Some(i - 1);
            }
            i = i - 1;
        }
        None
    }

    fn message(&self, tag: &str, key: &str, args: Option<&Vec<(String, ArgValue)>>) -> (r: Option<
        (String, bool),
    >)
        ensures
            message_view(r) == message_in(self@, tag@, key@, optional_args(args)),
    {
        proof {
            use_type_invariant(self);
        }
        match self.find(tag) {
            Some(i) => format_message(&self.bundles[i].1, key, args),
            None => None,
        }
    }

    /// A message in the active locale.
    pub fn format(&self, key: &str, args: Option<&Vec<(String, ArgValue)>>) -> (r: String)
        ensures
            r@ == translated(self@, key@, optional_args(args)),
    {
        let active: Option<(String, bool)> = self.message(self.current.as_str(), key, args);
        let source: Option<(String, bool)> = self.message(FALLBACK, key, args);
        choose_message(active, text::same(self.current.as_str(), FALLBACK), source, key)
    }
}

/// Translates a key in the active locale.
pub fn tr(i18n: &I18n, key: &str) -> (r: String)
    ensures
        r@ == translated(i18n@, key@, None),
{
    i18n.format(key, None)
}

/// Translates a key in the active locale, with values put into the message.
pub fn tr_args(i18n: &I18n, key: &str, args: &Vec<(String, ArgValue)>) -> (r: String)
    ensures
        r@ == translated(i18n@, key@, Some(arg_views(args@))),
{
    i18n.format(key, Some(args))
}

/// The active locale.
pub fn current_locale(i18n: &I18n) -> (r: String)
    ensures
        r@ == i18n@.current,
{
    i18n.current.clone()
}

/// The catalogs with a locale made active, if there is a catalog for it.
pub open spec fn with_locale(i: I18nView, tag: Seq<char>) -> I18nView {
    if catalog_for(i.catalogs, tag) is Some {
        I18nView { current: tag, ..i }
    } else {
        i
    }
}

/// Makes a locale active. One for which there is no catalog is ignored.
pub fn set_locale(i18n: &mut I18n, tag: &str)
    ensures
        final(i18n)@ == with_locale(old(i18n)@, tag@),
{
    if i18n.find(tag).is_some() {
        proof {
            use_type_invariant(&*i18n);
        }
        i18n.current = tag.to_owned();
    }
}

// ---------------------------------------------------------------------------
// Choosing a locale
// ---------------------------------------------------------------------------

/// The locales that catalogs are shipped for, each with its own name for itself, in the order in
/// which they are offered.
pub open spec fn locales() -> Seq<(Seq<char>, Seq<char>)> {
    seq![
        ("en-US"@, "English (US)"@),
        ("en-GB"@, "English (UK)"@),
        ("es"@, "Español"@),
        ("fr"@, "Français"@),
        ("ru"@, "Русский"@),
        ("zh"@, "中文"@),
    ]
}

/// The locales that catalogs are shipped for.
pub fn shipped_locales() -> (r: Vec<(String, String)>)
    ensures
        address::pair_texts(r@) == locales(),
{
    let v: Vec<(String, String)> = vec![
        ("en-US".to_owned(), "English (US)".to_owned()),
        ("en-GB".to_owned(), "English (UK)".to_owned()),
        ("es".to_owned(), "Español".to_owned()),
        ("fr".to_owned(), "Français".to_owned()),
        ("ru".to_owned(), "Русский".to_owned()),
        ("zh".to_owned(), "中文".to_owned()),
    ];
    assert(address::pair_texts(v@) =~= locales());
    v
}

/// An English locale that spells as British English does.
pub open spec fn is_british(l: Seq<char>) -> bool {
    ||| "en-gb"@.is_prefix_of(l)
    ||| "en-au"@.is_prefix_of(l)
    ||| "en-nz"@.is_prefix_of(l)
    ||| "en-ie"@.is_prefix_of(l)
    ||| "en-za"@.is_prefix_of(l)
    ||| "en_gb"@.is_prefix_of(l)
}

/// The language of a locale: what stands before the first `-`, `_` or `.`.
pub open spec fn language_part(l: Seq<char>) -> Seq<char>
    decreases l.len(),
{
    if l.len() == 0 || l[0] == '-' || l[0] == '_' || l[0] == '.' {
        Seq::empty()
    } else {
        seq![l[0]] + language_part(l.skip(1))
    }
}

/// The shipped locale that is closest to one of the system's.
pub open spec fn closest(os_locale: Seq<char>) -> Seq<char> {
    let l = text::lowered(os_locale);
    let p = language_part(l);
    if is_british(l) {
        "en-GB"@
    } else if "en"@.is_prefix_of(l) {
        "en-US"@
    } else if p == "es"@ {
        "es"@
    } else if p == "fr"@ {
        "fr"@
    } else if p == "ru"@ {
        "ru"@
    } else if p == "zh"@ {
        "zh"@
    } else {
        "en-US"@
    }
}

/// The closest locale is always one that a catalog is shipped for.
pub proof fn closest_is_shipped(os_locale: Seq<char>)
    ensures
        exists|i: int| 0 <= i < locales().len() && locales()[i].0 == closest(os_locale),
{
    let c = closest(os_locale);
    assert(locales()[0].0 == "en-US"@);
    assert(locales()[1].0 == "en-GB"@);
    assert(locales()[2].0 == "es"@);
    assert(locales()[3].0 == "fr"@);
    assert(locales()[4].0 == "ru"@);
    assert(locales()[5].0 == "zh"@);
}

fn language_of(l: &str) -> (r: String)
    ensures
        r@ == language_part(l@),
{
    let v: Vec<char> = text::chars_of(l);
    let mut out: String = String::new();
    let mut i: usize = 0;
    assert(v@.skip(0) =~= v@);
    assert(out@ + language_part(v@) =~= language_part(v@));
    while i < v.len() && v[i] != '-' && v[i] != '_' && v[i] != '.'
        invariant
            i <= v@.len(),
            language_part(l@) == out@ + language_part(v@.skip(i as int)),
        decreases v@.len() - i,
    {
        let ghost before = out@;
        let ghost rest = v@.skip(i as int);
        assert(rest[0] == v@[i as int]);
        assert(rest.skip(1) =~= v@.skip(i + 1));
        out.push(v[i]);
        assert(before + (seq![rest[0]] + language_part(rest.skip(1))) =~= out@ + language_part(
            v@.skip(i + 1),
        ));
        i = i + 1;
    }
    proof {
        let rest = v@.skip(i as int);
        if i < v@.len() {
            assert(rest[0] == v@[i as int]);
        }
        assert(language_part(rest) =~= Seq::<char>::empty());
        assert(out@ + Seq::<char>::empty() =~= out@);
    }
    out
}

/// The shipped locale that is closest to one of the system's, such as `fr-FR`, `zh-Hans-CN` or
/// `en_GB.UTF-8`.
pub fn best_match(os_locale: &str) -> (r: &'static str)
    ensures
        r@ == closest(os_locale@),
{
    let lower: String = text::to_lower(os_locale);
    let l: &str = lower.as_str();
    if text::starts_with(l, "en-gb") || text::starts_with(l, "en-au") || text::starts_with(
        l,
        "en-nz",
    ) || text::starts_with(l, "en-ie") || text::starts_with(l, "en-za") || text::starts_with(
        l,
        "en_gb",
    ) {
        return "en-GB";
    }
    if text::starts_with(l, "en") {
        return "en-US";
    }
    let p: String = language_of(l);
    if text::same(p.as_str(), "es") {
        "es"
    } else if text::same(p.as_str(), "fr") {
        "fr"
    } else if text::same(p.as_str(), "ru") {
        "ru"
    } else if text::same(p.as_str(), "zh") {
        "zh"
    } else {
        "en-US"
    }
}

/// A locale that a catalog is shipped for.
pub open spec fn is_shipped(tag: Seq<char>) -> bool {
    exists|i: int| 0 <= i < locales().len() && #[trigger] locales()[i].0 == tag
}

/// There is a catalog for each shipped locale, and for no other.
pub open spec fn has_shipped_catalogs(i: I18nView) -> bool {
    &&& forall|k: int| 0 <= k < i.catalogs.len() ==> is_shipped((#[trigger] i.catalogs[k]).0)
    &&& forall|tag: Seq<char>| #[trigger]
        is_shipped(tag) ==> exists|k: int| 0 <= k < i.catalogs.len() && (#[trigger] i.catalogs[k]).0 == tag
}

/// The catalogs once some locales have been asked for, one after the other.
pub open spec fn with_locales(i: I18nView, tags: Seq<Seq<char>>) -> I18nView
    decreases tags.len(),
{
    if tags.len() == 0 {
        i
    } else {
        with_locale(with_locales(i, tags.drop_last()), tags.last())
    }
}

proof fn lemma_catalog_for(c: Seq<(Seq<char>, (Seq<char>, Seq<char>))>, tag: Seq<char>)
    ensures
        catalog_for(c, tag) is Some <==> exists|k: int|
            0 <= k < c.len() && (#[trigger] c[k]).0 == tag,
    decreases c.len(),
{
    if c.len() > 0 {
        let r = c.drop_last();
        lemma_catalog_for(r, tag);
        assert(c[c.len() - 1] == c.last());
        if c.last().0 != tag {
            if catalog_for(r, tag) is Some {
                let k = choose|k: int| 0 <= k < r.len() && (#[trigger] r[k]).0 == tag;
                assert(c[k].0 == tag);
            }
            if exists|k: int| 0 <= k < c.len() && (#[trigger] c[k]).0 == tag {
                let k = choose|k: int| 0 <= k < c.len() && (#[trigger] c[k]).0 == tag;
                assert(r[k].0 == tag);
            }
        }
    }
}

/// The catalogs of the shipped locales, whatever they say, are there for each shipped locale and for
/// no other.
pub proof fn shipped_sources_make_shipped_catalogs(
    i: I18nView,
    sources: Seq<(Seq<char>, Seq<char>)>,
)
    requires
        i.catalogs == catalogs_of(sources),
        sources.len() == locales().len(),
        forall|k: int| 0 <= k < sources.len() ==> (#[trigger] sources[k]).0 == locales()[k].0,
    ensures
        has_shipped_catalogs(i),
        is_shipped(FALLBACK@),
{
    assert(locales()[0].0 == FALLBACK@);
    assert forall|k: int| 0 <= k < i.catalogs.len() implies is_shipped(
        (#[trigger] i.catalogs[k]).0,
    ) by {
        assert(sources[k].0 == locales()[k].0);
    }
    assert forall|tag: Seq<char>| #[trigger] is_shipped(tag) implies exists|k: int|
        0 <= k < i.catalogs.len() && (#[trigger] i.catalogs[k]).0 == tag by {
        let k = choose|k: int| 0 <= k < locales().len() && #[trigger] locales()[k].0 == tag;
        assert(sources[k].0 == tag);
        assert(i.catalogs[k].0 == tag);
    }
}

/// A locale becomes active exactly if a catalog is shipped for it, and any other leaves the active
/// one as it was.
pub proof fn shipped_locales_are_chosen(i: I18nView, tag: Seq<char>)
    requires
        has_shipped_catalogs(i),
    ensures
        with_locale(i, tag).current == if is_shipped(tag) {
            tag
        } else {
            i.current
        },
        with_locale(i, tag).catalogs == i.catalogs,
{
    lemma_catalog_for(i.catalogs, tag);
}

/// Whatever locales are asked for, the active one stays a shipped one.
pub proof fn the_active_locale_is_shipped(i: I18nView, tags: Seq<Seq<char>>)
    requires
        has_shipped_catalogs(i),
        is_shipped(i.current),
    ensures
        is_shipped(with_locales(i, tags).current),
        with_locales(i, tags).catalogs == i.catalogs,
    decreases tags.len(),
{
    if tags.len() > 0 {
        the_active_locale_is_shipped(i, tags.drop_last());
        shipped_locales_are_chosen(with_locales(i, tags.drop_last()), tags.last());
    }
}

/// Is a catalog shipped for this locale?
pub fn is_shipped_locale(tag: &str) -> (r: bool)
    ensures
        r == is_shipped(tag@),
{
    proof {
        assert(locales()[0].0 == "en-US"@);
        assert(locales()[1].0 == "en-GB"@);
        assert(locales()[2].0 == "es"@);
        assert(locales()[3].0 == "fr"@);
        assert(locales()[4].0 == "ru"@);
        assert(locales()[5].0 == "zh"@);
    }
    text::same(tag, "en-US") || text::same(tag, "en-GB") || text::same(tag, "es") || text::same(
        tag,
        "fr",
    ) || text::same(tag, "ru") || text::same(tag, "zh")
}

/// Makes the locale active that is asked for: one that a catalog is shipped for as it is, any
/// other by the closest.
pub fn init_from(i18n: &mut I18n, requested: Option<&str>)
    ensures
        final(i18n)@ == match requested {
            None => old(i18n)@,
            Some(l) => with_locale(
                old(i18n)@,
                if is_shipped(l@) {
                    l@
                } else {
                    closest(l@)
                },
            ),
        },
{
    match requested {
        None => {},
        Some(l) => {
            if is_shipped_locale(l) {
                set_locale(i18n, l);
            } else {
                set_locale(i18n, best_match(l));
            }
        },
    }
}

// ---------------------------------------------------------------------------
// Laws
// ---------------------------------------------------------------------------

/// A message is shown in the active locale where that could make it; where it could not, in the source
/// locale; and where that has none, its key is shown.
pub proof fn messages_are_shown_in_the_active_locale(
    t: Seq<char>,
    source: Option<(Seq<char>, bool)>,
    s: Seq<char>,
    whole: bool,
    key: Seq<char>,
)
    ensures
        chosen(Some((t, true)), false, source, key) == t,
        chosen(Some((t, whole)), true, source, key) == t,
        chosen(Some((t, false)), false, Some((s, whole)), key) == s,
        chosen(None, false, Some((s, whole)), key) == s,
        chosen(Some((t, false)), false, None, key) == key,
        chosen(None, false, None, key) == key,
{
}

/// A locale's messages come from its own catalog, and from the last where it has several; one without
/// a catalog has none.
pub proof fn the_last_catalog_counts(
    c: Seq<(Seq<char>, (Seq<char>, Seq<char>))>,
    tag: Seq<char>,
    contents: (Seq<char>, Seq<char>),
)
    ensures
        catalog_for(c.push((tag, contents)), tag) == Some(contents),
        catalog_for(c, tag) is None <==> forall|i: int| 0 <= i < c.len() ==> (#[trigger] c[i]).0 != tag,
        forall|i: int|
            0 <= i < c.len() && (#[trigger] c[i]).0 == tag && (forall|j: int|
                i < j < c.len() ==> (#[trigger] c[j]).0 != tag) ==> catalog_for(c, tag) == Some(c[i].1),
    decreases c.len(),
{
    assert(c.push((tag, contents)).drop_last() =~= c);
    if c.len() > 0 {
        let d = c.drop_last();
        the_last_catalog_counts(d, tag, contents);
        assert forall|i: int|
            0 <= i < c.len() && (#[trigger] c[i]).0 == tag && (forall|j: int|
                i < j < c.len() ==> (#[trigger] c[j]).0 != tag) implies catalog_for(c, tag) == Some(
            c[i].1,
        ) by {
            if i < d.len() {
                assert(c[c.len() - 1].0 != tag);
                assert(d[i] == c[i]);
                assert forall|j: int| i < j < d.len() implies (#[trigger] d[j]).0 != tag by {
                    assert(d[j] == c[j]);
                }
            }
        }
        if c.last().0 != tag {
            if catalog_for(c, tag) is None {
                assert forall|i: int| 0 <= i < c.len() implies (#[trigger] c[i]).0 != tag by {
                    if i < d.len() {
                        assert(d[i] == c[i]);
                    }
                }
            } else {
                let i = choose|i: int| 0 <= i < d.len() && (#[trigger] d[i]).0 == tag;
                assert(c[i].0 == tag);
            }
        } else {
            assert(c[c.len() - 1].0 == tag);
        }
    }
}

/// What the system calls English is English: British where it spells that way, and else American.
/// French, Spanish, Russian and Chinese are recognised by their language alone, whatever the country;
/// any other language becomes American English.
pub proof fn the_language_chooses_the_locale(language: Seq<char>, rest: Seq<char>)
    requires
        rest.len() == 0 || rest[0] == '-' || rest[0] == '_' || rest[0] == '.',
        forall|i: int| 0 <= i < language.len() ==> 'a' <= #[trigger] language[i] <= 'z',
        forall|i: int| 0 <= i < rest.len() ==> !('A' <= #[trigger] rest[i] <= 'Z'),
        language.len() == 2,
    ensures
        language == "es"@ ==> closest(language + rest) == "es"@,
        language == "fr"@ ==> closest(language + rest) == "fr"@,
        language == "ru"@ ==> closest(language + rest) == "ru"@,
        language == "zh"@ ==> closest(language + rest) == "zh"@,
        language == "en"@ && (rest == "-gb"@ || rest == "-au"@ || rest == "-nz"@ || rest == "-ie"@
            || rest == "-za"@ || rest == "_gb"@) ==> closest(language + rest) == "en-GB"@,
        language == "en"@ && (rest.len() == 0 || rest == "-us"@) ==> closest(language + rest)
            == "en-US"@,
        language != "es"@ && language != "fr"@ && language != "ru"@ && language != "zh"@ && language
            != "en"@ ==> closest(language + rest) == "en-US"@,
{
    let l = language + rest;
    reveal_strlit("es");
    reveal_strlit("fr");
    reveal_strlit("ru");
    reveal_strlit("zh");
    reveal_strlit("en");
    reveal_strlit("en-gb");
    reveal_strlit("en-au");
    reveal_strlit("en-nz");
    reveal_strlit("en-ie");
    reveal_strlit("en-za");
    reveal_strlit("en_gb");
    reveal_strlit("-gb");
    reveal_strlit("-au");
    reveal_strlit("-nz");
    reveal_strlit("-ie");
    reveal_strlit("-za");
    reveal_strlit("_gb");
    reveal_strlit("-us");
    assert(text::lowered(l) =~= l) by {
        assert forall|i: int| 0 <= i < l.len() implies text::lower_char(#[trigger] l[i]) == l[i] by {
            if i < 2 {
                assert(l[i] == language[i]);
            } else {
                assert(l[i] == rest[i - 2]);
            }
        }
    }
    assert(l[0] == language[0] && l[1] == language[1]);
    reveal_with_fuel(language_part, 4);
    assert(language_part(l) =~= language) by {
        assert(l.skip(1)[0] == l[1]);
        assert(l.skip(1).skip(1) =~= rest);
    }
    assert("es"@[0] == 'e' && "es"@[1] == 's' && "fr"@[0] == 'f' && "ru"@[0] == 'r' && "zh"@[0] == 'z'
        && "en"@[0] == 'e' && "en"@[1] == 'n');
    assert("en-gb"@[1] == 'n' && "en-au"@[1] == 'n' && "en-nz"@[1] == 'n' && "en-ie"@[1] == 'n'
        && "en-za"@[1] == 'n' && "en_gb"@[1] == 'n');
    assert("en-gb"@[0] == 'e' && "en-au"@[0] == 'e' && "en-nz"@[0] == 'e' && "en-ie"@[0] == 'e'
        && "en-za"@[0] == 'e' && "en_gb"@[0] == 'e');
    assert("en-gb"@[3] == 'g' && "en-au"@[3] == 'a' && "en-nz"@[3] == 'n' && "en-ie"@[3] == 'i'
        && "en-za"@[3] == 'z' && "en_gb"@[3] == 'g');
    if is_british(l) {
        assert(l[0] == 'e' && l[1] == 'n');
        assert(language =~= "en"@);
        assert(l.len() >= 5);
        assert(l[3] == rest[1]);
    }
    if "en"@.is_prefix_of(l) {
        assert(language =~= "en"@);
    }
    if language == "en"@ {
        assert("en"@.is_prefix_of(l));
        if rest == "-gb"@ {
            assert("en-gb"@.is_prefix_of(l)) by {
                assert("en-gb"@ =~= "en"@ + "-gb"@);
            }
        } else if rest == "-au"@ {
            assert("en-au"@.is_prefix_of(l)) by {
                assert("en-au"@ =~= "en"@ + "-au"@);
            }
        } else if rest == "-nz"@ {
            assert("en-nz"@.is_prefix_of(l)) by {
                assert("en-nz"@ =~= "en"@ + "-nz"@);
            }
        } else if rest == "-ie"@ {
            assert("en-ie"@.is_prefix_of(l)) by {
                assert("en-ie"@ =~= "en"@ + "-ie"@);
            }
        } else if rest == "-za"@ {
            assert("en-za"@.is_prefix_of(l)) by {
                assert("en-za"@ =~= "en"@ + "-za"@);
            }
        } else if rest == "_gb"@ {
            assert("en_gb"@.is_prefix_of(l)) by {
                assert("en_gb"@ =~= "en"@ + "_gb"@);
            }
        }
    }
}

/// A catalog formats for the language of its locale, and takes its messages from its own source.
pub proof fn catalogs_keep_their_sources(sources: Seq<(Seq<char>, Seq<char>)>, i: int)
    requires
        0 <= i < sources.len(),
    ensures
        catalogs_of(sources).len() == sources.len(),
        catalogs_of(sources)[i].0 == sources[i].0,
        catalogs_of(sources)[i].1.1 == sources[i].1,
        language_tag(sources[i].0) ==> catalogs_of(sources)[i].1.0 == sources[i].0,
        !language_tag(sources[i].0) ==> catalogs_of(sources)[i].1.0 == "en-US"@,
{
}

} // verus!
