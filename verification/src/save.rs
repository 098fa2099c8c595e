//! The options of a download and the task that is made of them.

use crate::client::{
    client_config, config_fault, is_config_of, optional_text, ClientConfig, ClientError,
};
use crate::input::{classify, input_type_of, InputType};
use crate::naming::{is_first_free, probe_name, temp_name, tempfile_name, unused_name};
use crate::quality::Quality;
use crate::text::{chars_of, starts_with, texts};
use vstd::prelude::*;
use vstd::string::*;

verus! {

/// The options of one download.
#[derive(Debug, Clone)]
pub struct Save {
    /// URL, local playlist or manifest, or web page.
    pub input: String,
    /// Base for segment addresses that are relative.
    pub baseurl: Option<String>,
    /// Directory for the files that are written meanwhile.
    pub directory: Option<String>,
    /// Decryption keys: optional key id, key material.
    pub key: Vec<(Option<String>, String)>,
    pub one_stream: bool,
    /// Path of the container that the streams are joined into.
    pub output: Option<String>,
    pub raw_prompts: bool,
    /// Whether an earlier session is taken up again.
    pub resume: bool,
    pub retry_count: u8,
    pub threads: u8,
    pub prefer_audio_lang: Option<String>,
    pub prefer_subs_lang: Option<String>,
    pub quality: Quality,
    /// Header names and values, in turn.
    pub header: Vec<String>,
    pub proxy_address: Option<String>,
    pub enable_cookies: bool,
    pub cookie: Option<String>,
    /// Set-cookie texts and origin URLs, in turn.
    pub set_cookie: Vec<String>,
    pub user_agent: String,
}

/// The task handed to the download engine.
#[derive(Debug, Clone)]
pub struct DownloadState {
    pub args: Save,
    pub input_type: InputType,
    pub client: ClientConfig,
    pub tempfile: String,
    /// Set later, by whoever reads the manifest.
    pub dash: bool,
    pub cenc_encrypted_audio: bool,
    pub cenc_encrypted_video: bool,
}

/// Why a segment address could not be made absolute.
#[derive(Debug, Clone, Copy, PartialEq, Eq, Structural)]
pub enum UrlError {
    /// The input is no URL and no base URL was given.
    MissingBaseUrl,
    /// The base or the address is malformed.
    InvalidUrl,
}

/// Why no task can be made.
#[derive(Debug, Clone, Copy, PartialEq, Eq, Structural)]
pub enum TaskError {
    /// The input is a web page and no link from it was handed in.
    NoLink,
}

/// Against what a segment address is resolved.
#[derive(Debug, Clone, PartialEq, Eq)]
pub enum UrlBase {
    /// The address is absolute already.
    Absolute,
    /// The address is joined to this base.
    Base(String),
    /// There is nothing to join it to.
    Missing,
}

/// What `Url::join` makes of an address on the base that `Url::parse`
/// reads: the text of the joined URL, or nothing where either refuses.
pub uninterp spec fn joined_url(base: Seq<char>, rel: Seq<char>) -> Option<Seq<char>>;

/// `Url::parse` on the base, `Url::join` with the address, and the
/// joined URL written out. Whether this succeeds, and with which text,
/// depends on the two texts alone and goes by the name `joined_url`.
#[verifier::external_body]
fn join_url(base: &str, rel: &str) -> (r: Option<String>)
    ensures
        r is Some <==> joined_url(base@, rel@) is Some,
        r is Some ==> r->Some_0@ == joined_url(base@, rel@)->Some_0,
{
    match reqwest::Url::parse(base) {
        Ok(b) => match b.join(rel) {
            Ok(u) => Some(u.to_string()),
            Err(_) => None,
        },
        Err(_) => None,
    }
}

/// The result of joining an address to what `base` says.
pub fn resolve(base: &UrlBase, uri: &str) -> (r: Result<String, UrlError>)
    ensures
        match *base {
            UrlBase::Absolute => r is Ok && r->Ok_0@ == uri@,
            UrlBase::Base(b) => match joined_url(b@, uri@) {
                Some(u) => r is Ok && r->Ok_0@ == u,
                None => r == Err::<String, UrlError>(UrlError::InvalidUrl),
            },
            UrlBase::Missing => r == Err::<String, UrlError>(UrlError::MissingBaseUrl),
        },
{
    match base {
        UrlBase::Absolute => Ok(String::from_str(uri)),
        UrlBase::Base(b) => match join_url(b.as_str(), uri) {
            Some(u) => Ok(u),
            None => Err(UrlError::InvalidUrl),
        },
        UrlBase::Missing => Err(UrlError::MissingBaseUrl),
    }
}

impl Save {
    /// The base that `uri` is resolved against.
    pub open spec fn base_of(&self, uri: Seq<char>) -> Option<Option<Seq<char>>> {
        if "http"@.is_prefix_of(uri) {
            Some(None)
        } else if self.baseurl is Some {
            Some(Some(self.baseurl->Some_0@))
        } else if "http"@.is_prefix_of(self.input@) {
            Some(Some(self.input@))
        } else {
            None
        }
    }

    /// Picks the base for a segment address: none for an absolute
    /// address, else the base URL, else the input if it is a URL.
    pub fn url_base(&self, uri: &str) -> (r: UrlBase)
        ensures
            match self.base_of(uri@) {
                Some(None) => r == UrlBase::Absolute,
                Some(Some(b)) => r is Base && r->Base_0@ == b,
                None => r == UrlBase::Missing,
            },
    {
        let u = chars_of(uri);
        if starts_with(&u, "http") {
            return UrlBase::Absolute;
        }
        match &self.baseurl {
            Some(b) => UrlBase::Base(b.clone()),
            None => {
                let i = chars_of(self.input.as_str());
                if starts_with(&i, "http") {
                    UrlBase::Base(self.input.clone())
                } else {
                    UrlBase::Missing
                }
            },
        }
    }

    /// Makes a segment address absolute.
    pub fn get_url(&self, uri: &str) -> (r: Result<String, UrlError>)
        ensures
            match self.base_of(uri@) {
                Some(None) => r is Ok && r->Ok_0@ == uri@,
                Some(Some(b)) => match joined_url(b, uri@) {
                    Some(u) => r is Ok && r->Ok_0@ == u,
                    None => r == Err::<String, UrlError>(UrlError::InvalidUrl),
                },
                None => r == Err::<String, UrlError>(UrlError::MissingBaseUrl),
            },
    {
        let base = self.url_base(uri);
        resolve(&base, uri)
    }

    /// The working file name of this download.
    pub fn tempfile(&self) -> (r: String)
        ensures
            r@ == temp_name(self.input@),
    {
        tempfile_name(self.input.as_str())
    }

    /// The working file name that does not touch the files named in
    /// `taken`: a resumed session keeps its name, any other gets the name
    /// itself or its first numbered alternative that is free.
    pub fn free_tempfile(&self, taken: &Vec<String>) -> (r: String)
        ensures
            self.resume ==> r@ == temp_name(self.input@),
            !self.resume ==> exists|n: nat|
                n <= taken.len() && is_first_free(temp_name(self.input@), texts(taken@), n) && r@
                    == probe_name(temp_name(self.input@), n),
    {
        let name = self.tempfile();
        unused_name(name.as_str(), taken, self.resume)
    }

    /// The class of the input.
    pub fn input_type(&self) -> (t: InputType)
        ensures
            t == input_type_of(self.input@),
    {
        classify(self.input.as_str())
    }

    /// The client configuration that the options ask for, or the first
    /// fault of the options.
    pub fn client(&self) -> (r: Result<ClientConfig, ClientError>)
        ensures
            match config_fault(
                texts(self.header@),
                optional_text(self.proxy_address),
                texts(self.set_cookie@),
            ) {
                Some(e) => r == Err::<ClientConfig, ClientError>(e),
                None => r is Ok && is_config_of(
                    r->Ok_0,
                    self.user_agent@,
                    texts(self.header@),
                    optional_text(self.proxy_address),
                    self.enable_cookies,
                    self.cookie,
                    texts(self.set_cookie@),
                ),
            },
    {
        client_config(
            self.user_agent.as_str(),
            &self.header,
            &self.proxy_address,
            self.enable_cookies,
            &self.cookie,
            &self.set_cookie,
        )
    }

    /// Whether the input is a web page that has to be searched for links.
    pub fn needs_scrape(&self) -> (b: bool)
        ensures
            b == (input_type_of(self.input@) == InputType::Website),
    {
        self.input_type().is_website()
    }

    /// The reference that the task works on: for a web page the link that
    /// was found on it, if any; for every other input the input itself.
    pub open spec fn resolved_input(&self, link: Option<String>) -> Option<Seq<char>> {
        if input_type_of(self.input@) == InputType::Website {
            match link {
                Some(l) => Some(l@),
                None => None,
            }
        } else {
            Some(self.input@)
        }
    }

    /// Makes the task. For a web page the link found on it takes the place
    /// of the input, and without a link there is no task; any other input
    /// stays as it is. Class and file name are those of the input that
    /// results.
    pub fn to_download_state(self, client: ClientConfig, link: Option<String>) -> (r: Result<
        DownloadState,
        TaskError,
    >)
        ensures
            match self.resolved_input(link) {
                None => r == Err::<DownloadState, TaskError>(TaskError::NoLink),
                Some(input) => {
                    &&& r is Ok
                    &&& r->Ok_0.args.input@ == input
                    &&& r->Ok_0.args == (Save { input: r->Ok_0.args.input, ..self })
                    &&& r->Ok_0.input_type == input_type_of(input)
                    &&& r->Ok_0.tempfile@ == temp_name(input)
                    &&& r->Ok_0.client == client
                    &&& !r->Ok_0.dash && !r->Ok_0.cenc_encrypted_audio
                        && !r->Ok_0.cenc_encrypted_video
                },
            },
    {
        let website = self.needs_scrape();
        let mut args = self;
        if website {
            match link {
                Some(l) => {
                    args.input = l;
                },
                None => {
                    return Err(TaskError::NoLink);
                },
            }
        }
        let input_type = args.input_type();
        let tempfile = args.tempfile();
        Ok(
            DownloadState {
                args,
                input_type,
                client,
                tempfile,
                dash: false,
                cenc_encrypted_audio: false,
                cenc_encrypted_video: false,
            },
        )
    }
}

impl TaskError {
    /// The text shown to the user for this failure.
    pub fn message(&self) -> (r: String)
        ensures
            r@ == "no playlist link was found for the website"@,
    {
        String::from_str("no playlist link was found for the website")
    }
}

impl UrlError {
    /// The text shown to the user for this failure.
    pub fn message(&self) -> (r: String)
        ensures
            *self == UrlError::MissingBaseUrl ==> r@
                == "Non HTTP input should have --baseurl set explicitly."@,
            *self == UrlError::InvalidUrl ==> r@ == "couldn't build the segment url"@,
    {
        match self {
            UrlError::MissingBaseUrl => String::from_str(
                "Non HTTP input should have --baseurl set explicitly.",
            ),
            UrlError::InvalidUrl => String::from_str("couldn't build the segment url"),
        }
    }
}

} // verus!
