//! Hugging Face tokens: where one is looked for, and what counts as one.
use crate::paths::{join_path, joined_path, parent, parent_of};
use crate::text::{
    byte_len, byte_length, cat2, cat4, chars_of, is_white_space, trim, trimmed, white_space, Text,
};
use vstd::prelude::*;
use vstd::string::*;

verus! {

/// Where a token was found.
#[derive(Clone, Copy, Debug, PartialEq, Eq, Structural)]
pub enum HfTokenSource {
    Session,
    Environment,
    ExplicitTokenPath,
    ComfyBoxCredential,
    HuggingFaceCache,
}

impl HfTokenSource {
    pub open spec fn words(self) -> Text {
        match self {
            HfTokenSource::Session => "current session"@,
            HfTokenSource::Environment => "environment"@,
            HfTokenSource::ExplicitTokenPath => "HF_TOKEN_PATH"@,
            HfTokenSource::ComfyBoxCredential => "ComfyBox credential"@,
            HfTokenSource::HuggingFaceCache => "Hugging Face cache"@,
        }
    }

    /// The source in words.
    pub fn label(self) -> (r: &'static str)
        ensures
            r@ == self.words(),
    {
        match self {
            HfTokenSource::Session => "current session",
            HfTokenSource::Environment => "environment",
            HfTokenSource::ExplicitTokenPath => "HF_TOKEN_PATH",
            HfTokenSource::ComfyBoxCredential => "ComfyBox credential",
            HfTokenSource::HuggingFaceCache => "Hugging Face cache",
        }
    }
}

/// A token and where it was found.
pub struct HfCredential {
    token: String,
    source: HfTokenSource,
}

/// What an [`HfCredential`] holds.
pub struct CredentialView {
    pub token: Text,
    pub source: HfTokenSource,
}

impl View for HfCredential {
    type V = CredentialView;

    closed spec fn view(&self) -> CredentialView {
        CredentialView { token: self.token@, source: self.source }
    }
}

impl HfCredential {
    fn found(token: String, source: HfTokenSource) -> (r: HfCredential)
        ensures
            r@ == (CredentialView { token: token@, source }),
    {
        HfCredential { token, source }
    }

    /// The token.
    pub fn token(&self) -> (r: &str)
        ensures
            r@ == self@.token,
    {
        self.token.as_str()
    }

    /// Where it was found.
    pub fn source(&self) -> (r: HfTokenSource)
        ensures
            r == self@.source,
    {
        self.source
    }
}

/// The most bytes that a token has.
pub const LONGEST_TOKEN: usize = 4096;

/// Some character of `s` is white space.
pub open spec fn has_white_space(s: Text) -> bool {
    exists|i: int| 0 <= i < s.len() && is_white_space(#[trigger] s[i])
}

fn any_white_space(s: &str) -> (r: bool)
    ensures
        r == has_white_space(s@),
{
    let v = chars_of(s);
    let mut i: usize = 0;
    while i < v.len()
        invariant
            i <= v@.len(),
            v@ == s@,
            forall|k: int| 0 <= k < i ==> !is_white_space(#[trigger] v@[k]),
        decreases v@.len() - i,
    {
        if white_space(v[i]) {
            return true;
        }
        i += 1;
    }
    false
}

/// What a text that should hold a token holds: nothing, a token, or neither.
pub open spec fn token_in(raw: Text) -> Result<Option<Text>, Text> {
    let t = trimmed(raw);
    if t.len() == 0 {
        Ok(None)
    } else if byte_len(t) > LONGEST_TOKEN || has_white_space(t) {
        Err("HF token contains whitespace or is unexpectedly long"@)
    } else {
        Ok(Some(t))
    }
}

/// The token in `raw` without the blanks around it; none where there is nothing else.
pub fn normalize_token(raw: &str) -> (r: Result<Option<String>, String>)
    ensures
        match r {
            Ok(t) => token_in(raw@) == Ok::<Option<Text>, Text>(t.deep_view()),
            Err(m) => token_in(raw@) == Err::<Option<Text>, Text>(m@),
        },
{
    let token = trim(raw);
    if token.as_str().is_empty() {
        return Ok(None);
    }
    if byte_length(token.as_str()) > LONGEST_TOKEN || any_white_space(token.as_str()) {
        return Err("HF token contains whitespace or is unexpectedly long".to_owned());
    }
    Ok(Some(token))
}

/// What an environment variable holds.
pub enum EnvValue {
    Absent,
    NotUnicode,
    Text(String),
}

/// What an [`EnvValue`] holds.
pub enum EnvView {
    Absent,
    NotUnicode,
    Text(Text),
}

/// What was found where a token file may be.
pub enum TokenFile {
    /// There is no file.
    Absent,
    /// It could not be read.
    Unreadable(String),
    Text(String),
}

/// What a [`TokenFile`] holds.
pub enum TokenFileView {
    Absent,
    Unreadable(Text),
    Text(Text),
}

impl DeepView for EnvValue {
    type V = EnvView;

    open spec fn deep_view(&self) -> EnvView {
        match self {
            EnvValue::Absent => EnvView::Absent,
            EnvValue::NotUnicode => EnvView::NotUnicode,
            EnvValue::Text(s) => EnvView::Text(s@),
        }
    }
}

impl DeepView for TokenFile {
    type V = TokenFileView;

    open spec fn deep_view(&self) -> TokenFileView {
        match self {
            TokenFile::Absent => TokenFileView::Absent,
            TokenFile::Unreadable(s) => TokenFileView::Unreadable(s@),
            TokenFile::Text(s) => TokenFileView::Text(s@),
        }
    }
}

/// Everything that a token is resolved from, each file with its path. The last list is of the
/// standard cache locations.
pub struct TokenPlaces {
    pub session: Option<String>,
    pub environment: EnvValue,
    pub explicit: Option<(String, TokenFile)>,
    pub saved: (String, TokenFile),
    pub cache: Vec<(String, TokenFile)>,
}

/// What [`TokenPlaces`] hold.
pub struct PlacesView {
    pub session: Option<Text>,
    pub environment: EnvView,
    pub explicit: Option<(Text, TokenFileView)>,
    pub saved: (Text, TokenFileView),
    pub cache: Seq<(Text, TokenFileView)>,
}

impl DeepView for TokenPlaces {
    type V = PlacesView;

    open spec fn deep_view(&self) -> PlacesView {
        PlacesView {
            session: self.session.deep_view(),
            environment: self.environment.deep_view(),
            explicit: self.explicit.deep_view(),
            saved: self.saved.deep_view(),
            cache: self.cache.deep_view(),
        }
    }
}

/// What the environment variable gives.
pub open spec fn env_token_in(value: EnvView) -> Result<Option<Text>, Text> {
    match value {
        EnvView::Absent => Ok(None),
        EnvView::NotUnicode => Err("HF_TOKEN is not valid Unicode"@),
        EnvView::Text(s) => match token_in(s) {
            Ok(t) => Ok(t),
            Err(m) => Err("invalid HF_TOKEN: "@ + m),
        },
    }
}

fn env_token(value: &EnvValue) -> (r: Result<Option<String>, String>)
    ensures
        match r {
            Ok(t) => env_token_in(value.deep_view()) == Ok::<Option<Text>, Text>(t.deep_view()),
            Err(m) => env_token_in(value.deep_view()) == Err::<Option<Text>, Text>(m@),
        },
{
    match value {
        EnvValue::Absent => Ok(None),
        EnvValue::NotUnicode => Err("HF_TOKEN is not valid Unicode".to_owned()),
        EnvValue::Text(s) => match normalize_token(s.as_str()) {
            Ok(t) => Ok(t),
            Err(m) => Err(cat2("invalid HF_TOKEN: ", m.as_str())),
        },
    }
}

/// The result of a resolution that ends with a credential.
pub open spec fn credential(token: Text, source: HfTokenSource) -> Result<
    Option<CredentialView>,
    Text,
> {
    Ok(Some(CredentialView { token, source }))
}

/// What a file that is there gives. It ends the search, whatever it holds.
pub open spec fn file_credential(path: Text, file: TokenFileView, source: HfTokenSource) -> Result<
    Option<CredentialView>,
    Text,
> {
    match file {
        TokenFileView::Absent => Ok(None),
        TokenFileView::Unreadable(m) => Err("read token from "@ + path + ": "@ + m),
        TokenFileView::Text(raw) => match token_in(raw) {
            Err(m) => Err(m),
            Ok(None) => Err("token file is empty: "@ + path),
            Ok(Some(t)) => credential(t, source),
        },
    }
}

/// What the first cache location from `at` on with a file gives.
pub open spec fn cache_credential(cache: Seq<(Text, TokenFileView)>, at: int) -> Result<
    Option<CredentialView>,
    Text,
>
    decreases cache.len() - at,
{
    if at < 0 || at >= cache.len() {
        Ok(None)
    } else if cache[at].1 !is Absent {
        file_credential(cache[at].0, cache[at].1, HfTokenSource::HuggingFaceCache)
    } else {
        cache_credential(cache, at + 1)
    }
}

/// The file that the environment names, where it names one.
pub open spec fn named_file(named: Option<(Text, TokenFileView)>) -> TokenFileView {
    match named {
        Some((_, file)) => file,
        None => TokenFileView::Absent,
    }
}

/// The path that the environment names, where it names one.
pub open spec fn named_path(named: Option<(Text, TokenFileView)>) -> Text {
    match named {
        Some((path, _)) => path,
        None => Seq::empty(),
    }
}

/// The credential to go by: the session's token, the environment's, that of the file that the
/// environment names, the saved one, the first of the cache locations.
pub open spec fn resolved(p: PlacesView) -> Result<Option<CredentialView>, Text> {
    match p.session {
        Some(t) => credential(t, HfTokenSource::Session),
        None => match env_token_in(p.environment) {
            Err(m) => Err(m),
            Ok(Some(t)) => credential(t, HfTokenSource::Environment),
            Ok(None) => if named_file(p.explicit) !is Absent {
                file_credential(
                    named_path(p.explicit),
                    named_file(p.explicit),
                    HfTokenSource::ExplicitTokenPath,
                )
            } else if p.saved.1 !is Absent {
                file_credential(p.saved.0, p.saved.1, HfTokenSource::ComfyBoxCredential)
            } else {
                cache_credential(p.cache, 0)
            },
        },
    }
}

/// A result in mathematical terms.
pub open spec fn credential_view(r: Result<Option<HfCredential>, String>) -> Result<
    Option<CredentialView>,
    Text,
> {
    match r {
        Ok(Some(c)) => Ok(Some(c@)),
        Ok(None) => Ok(None),
        Err(m) => Err(m@),
    }
}

fn read_credential(path: &String, file: &TokenFile, source: HfTokenSource) -> (r: Result<
    Option<HfCredential>,
    String,
>)
    ensures
        credential_view(r) == file_credential(path@, file.deep_view(), source),
{
    match file {
        TokenFile::Absent => Ok(None),
        TokenFile::Unreadable(m) => Err(cat4("read token from ", path.as_str(), ": ", m.as_str())),
        TokenFile::Text(raw) => match normalize_token(raw.as_str()) {
            Err(m) => Err(m),
            Ok(None) => Err(cat2("token file is empty: ", path.as_str())),
            Ok(Some(t)) => Ok(Some(HfCredential::found(t, source))),
        },
    }
}

fn is_there(file: &TokenFile) -> (r: bool)
    ensures
        r == (file.deep_view() !is Absent),
{
    match file {
        TokenFile::Absent => false,
        _ => true,
    }
}

/// The credential to go by, the first that is found in the order of [`resolved`].
pub fn resolve_hf_token(places: &TokenPlaces) -> (r: Result<Option<HfCredential>, String>)
    ensures
        credential_view(r) == resolved(places.deep_view()),
{
    if let Some(token) = &places.session {
        return Ok(Some(HfCredential::found(token.clone(), HfTokenSource::Session)));
    }
    match env_token(&places.environment) {
        Err(m) => {
            return Err(m);
        },
        Ok(Some(token)) => {
            return Ok(Some(HfCredential::found(token, HfTokenSource::Environment)));
        },
        Ok(None) => {},
    }
    if let Some(named) = &places.explicit {
        if is_there(&named.1) {
            return read_credential(&named.0, &named.1, HfTokenSource::ExplicitTokenPath);
        }
    }
    if is_there(&places.saved.1) {
        return read_credential(
            &places.saved.0,
            &places.saved.1,
            HfTokenSource::ComfyBoxCredential,
        );
    }
    let ghost cache = places.cache.deep_view();
    let mut i: usize = 0;
    while i < places.cache.len()
        invariant
            i <= places.cache@.len(),
            cache == places.cache.deep_view(),
            resolved(places.deep_view()) == cache_credential(cache, i as int),
        decreases places.cache@.len() - i,
    {
        let entry = &places.cache[i];
        assert(cache[i as int] == entry.deep_view());
        if is_there(&entry.1) {
            return read_credential(&entry.0, &entry.1, HfTokenSource::HuggingFaceCache);
        }
        i += 1;
    }
    Ok(None)
}

/// The token to go by.
pub fn hf_token(places: &TokenPlaces) -> (r: Result<Option<String>, String>)
    ensures
        match r {
            Ok(t) => match resolved(places.deep_view()) {
                Ok(Some(c)) => t.deep_view() == Some(c.token),
                Ok(None) => t is None,
                Err(_) => false,
            },
            Err(m) => resolved(places.deep_view()) == Err::<Option<CredentialView>, Text>(m@),
        },
{
    match resolve_hf_token(places) {
        Ok(Some(c)) => Ok(Some(c.token().to_owned())),
        Ok(None) => Ok(None),
        Err(m) => Err(m),
    }
}

/// Where a saved token is kept.
pub fn token_path(config_dir: &str, windows: bool) -> (r: String)
    ensures
        r@ == joined_path(windows, config_dir@, "hf_token"@),
{
    join_path(windows, config_dir, "hf_token")
}

/// What is written when a token is saved.
pub struct TokenSave {
    pub token: String,
    pub path: String,
    pub parent: String,
    pub temporary: String,
    pub contents: String,
}

/// How a token is saved: under a fresh name beside its file, then renamed; a text without a token
/// is refused.
pub fn save_hf_token(token: &str, config_dir: &str, windows: bool) -> (r: Result<
    TokenSave,
    String,
>)
    ensures
        match r {
            Ok(save) => {
                &&& token_in(token@) == Ok::<Option<Text>, Text>(Some(save.token@))
                &&& save.path@ == joined_path(windows, config_dir@, "hf_token"@)
                &&& parent_of(windows, save.path@) == Some(save.parent@)
                &&& save.contents@ == save.token@ + "\n"@
                &&& exists|id: Text|
                    crate::outside::uuid_shaped(id) && save.temporary@
                        == #[trigger] crate::download::temporary_name(windows, save.path@, id)
            },
            Err(m) => {
                ||| token_in(token@) == Err::<Option<Text>, Text>(m@)
                ||| token_in(token@) == Ok::<Option<Text>, Text>(None) && m@
                    == "HF token cannot be empty"@
                ||| token_in(token@) matches Ok(Some(_)) && parent_of(
                    windows,
                    joined_path(windows, config_dir@, "hf_token"@),
                ) is None && m@ == "HF token path has no parent"@
            },
        },
{
    let token = match normalize_token(token) {
        Err(m) => {
            return Err(m);
        },
        Ok(None) => {
            return Err("HF token cannot be empty".to_owned());
        },
        Ok(Some(t)) => t,
    };
    let path = token_path(config_dir, windows);
    match parent(windows, path.as_str()) {
        None => Err("HF token path has no parent".to_owned()),
        Some(parent) => {
            let temporary = crate::download::fresh_temporary_path(path.as_str(), windows);
            let contents = cat2(token.as_str(), "\n");
            Ok(TokenSave { token, path, parent, temporary, contents })
        },
    }
}

/// The standard cache locations of a token, in the order in which they are looked at.
pub open spec fn cache_paths(windows: bool, hf_home: Option<Text>, home: Option<Text>) -> Seq<
    Text,
> {
    (match hf_home {
        Some(h) => seq![joined_path(windows, h, "token"@)],
        None => Seq::empty(),
    }) + (match home {
        Some(h) => seq![
            joined_path(windows, h, ".cache/huggingface/token"@),
            joined_path(windows, h, ".huggingface/token"@),
        ],
        None => Seq::empty(),
    })
}

/// The standard cache locations of a token, in the order in which they are looked at.
pub fn huggingface_cache_paths(
    hf_home: Option<&str>,
    home: Option<&str>,
    windows: bool,
) -> (r: Vec<String>)
    ensures
        r.deep_view() == cache_paths(
            windows,
            crate::state::opt_text(hf_home),
            crate::state::opt_text(home),
        ),
{
    let mut paths: Vec<String> = Vec::new();
    if let Some(h) = hf_home {
        paths.push(join_path(windows, h, "token"));
    }
    if let Some(h) = home {
        paths.push(join_path(windows, h, ".cache/huggingface/token"));
        paths.push(join_path(windows, h, ".huggingface/token"));
    }
    assert(paths.deep_view() =~= cache_paths(
        windows,
        crate::state::opt_text(hf_home),
        crate::state::opt_text(home),
    ));
    paths
}

}
