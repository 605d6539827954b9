//! The description of one Git checkout.
use vstd::prelude::*;
use crate::error::WorkspaceError;
use crate::paths::name_start;
use crate::text::{
    chars_of, has_prefix, starts_with, string_of_range, trim_end_matches, without_suffix,
};
use crate::trusted::{url_parse, url_segments};

verus! {

/// One repository to materialise in a workspace.
#[derive(Debug, Clone, PartialEq, Eq)]
pub struct Repository {
    /// Where to fetch from.
    pub url: String,
    /// Where the checkout goes inside the workspace.
    pub path: String,
    /// Branch, tag or commit; `None` stands for the default branch.
    pub reference: Option<String>,
}

/// Collects the parts of a repository before it is built.
#[derive(Debug, Clone)]
pub struct RepositoryBuilder {
    pub url: Option<String>,
    pub path: Option<String>,
    pub reference: Option<Option<String>>,
}

impl Default for RepositoryBuilder {
    fn default() -> (builder: RepositoryBuilder)
        ensures
            builder.url is None,
            builder.path is None,
            builder.reference is None,
    {
        RepositoryBuilder { url: None, path: None, reference: None }
    }
}

/// What a builder without a URL answers.
pub open spec fn missing_url_text() -> Seq<char> {
    "Expected url when building repository"@
}

/// What is wrong with a URL, if anything: it must begin with `https://`,
/// and it must parse.
pub open spec fn url_problem(url: Seq<char>, parses: bool) -> Option<Seq<char>> {
    if !has_prefix(url, "https://"@) {
        Some("Only https urls are supported"@)
    } else if !parses {
        Some("Failed to parse url"@)
    } else {
        None
    }
}

/// The name a repository goes by: the last two parts of its URL, the last
/// one without `.git`. A URL without a `/` has no such name.
pub open spec fn default_name(url: Seq<char>) -> Option<Seq<char>> {
    let last = name_start(url, url.len() as int);
    if last <= 0 {
        None
    } else {
        let before = url.take(last - 1);
        let owner = before.skip(name_start(before, before.len() as int));
        Some(owner + "/"@ + without_suffix(url.skip(last), ".git"@))
    }
}

/// Checks a URL, given whether it parsed.
pub fn validate_url(url: &str, parses: bool) -> (r: Result<(), WorkspaceError>)
    ensures
        match url_problem(url@, parses) {
            Some(problem) => r matches Err(WorkspaceError::Validation(m)) && m@ == problem,
            None => r is Ok,
        },
{
    if !starts_with(url, "https://") {
        Err(WorkspaceError::Validation(String::from_str("Only https urls are supported")))
    } else if !parses {
        Err(WorkspaceError::Validation(String::from_str("Failed to parse url")))
    } else {
        Ok(())
    }
}

fn component_start(v: &Vec<char>, end: usize) -> (start: usize)
    requires
        end <= v.len(),
    ensures
        start <= end,
        start == name_start(v@.take(end as int), end as int),
{
    let ghost s = v@.take(end as int);
    let mut start: usize = end;
    while start > 0 && v[start - 1] != '/'
        invariant
            start <= end <= v.len(),
            s == v@.take(end as int),
            name_start(s, end as int) == name_start(s, start as int),
        decreases start,
    {
        start -= 1;
    }
    start
}

impl RepositoryBuilder {
    /// Sets the URL to fetch from.
    pub fn url(self, value: &str) -> (builder: RepositoryBuilder)
        ensures
            builder.url matches Some(u) && u@ == value@,
            builder.path == self.path,
            builder.reference == self.reference,
    {
        RepositoryBuilder { url: Some(String::from_str(value)), path: self.path, reference: self.reference }
    }

    /// Sets the place of the checkout inside the workspace.
    pub fn path(self, value: &str) -> (builder: RepositoryBuilder)
        ensures
            builder.path matches Some(p) && p@ == value@,
            builder.url == self.url,
            builder.reference == self.reference,
    {
        RepositoryBuilder { url: self.url, path: Some(String::from_str(value)), reference: self.reference }
    }

    /// Sets the branch, tag or commit to check out.
    pub fn reference(self, value: &str) -> (builder: RepositoryBuilder)
        ensures
            builder.reference matches Some(Some(r)) && r@ == value@,
            builder.url == self.url,
            builder.path == self.path,
    {
        RepositoryBuilder { url: self.url, path: self.path, reference: Some(Some(String::from_str(value))) }
    }

    /// The name the repository goes by, taken from the URL.
    pub fn default_repository_name(&self) -> (r: Result<String, WorkspaceError>)
        ensures
            match self.url {
                None => r matches Err(WorkspaceError::Validation(m)) && m@ == missing_url_text(),
                Some(u) => match default_name(u@) {
                    Some(name) => r matches Ok(n) && n@ == name,
                    None => r matches Err(WorkspaceError::Validation(m)) && m@
                        == "Expected a url with at least two parts"@,
                },
            },
    {
        match &self.url {
            None => Err(
                WorkspaceError::Validation(String::from_str("Expected url when building repository")),
            ),
            Some(u) => {
                let v = chars_of(u.as_str());
                proof {
                    assert(v@.take(v.len() as int) =~= v@);
                }
                let last = component_start(&v, v.len());
                if last == 0 {
                    return Err(
                        WorkspaceError::Validation(
                            String::from_str("Expected a url with at least two parts"),
                        ),
                    );
                }
                let first = component_start(&v, last - 1);
                proof {
                    let before = v@.take(last - 1);
                    assert(v@.subrange(first as int, last - 1) =~= before.skip(first as int));
                    assert(v@.subrange(last as int, v.len() as int) =~= v@.skip(last as int));
                }
                let mut name = string_of_range(&v, first, last - 1);
                name.append("/");
                let tail = string_of_range(&v, last, v.len());
                name.append(trim_end_matches(tail.as_str(), ".git").as_str());
                Ok(name)
            },
        }
    }

    /// Builds the repository. A URL is required; it must begin with
    /// `https://` and parse. Path and reference are empty unless set.
    pub fn build(&self) -> (r: Result<Repository, WorkspaceError>)
        ensures
            match self.url {
                None => r matches Err(WorkspaceError::Validation(m)) && m@ == missing_url_text(),
                Some(u) => match url_problem(u@, url_segments(u@) is Ok) {
                    Some(problem) => r matches Err(WorkspaceError::Validation(m)) && m@
                        == problem,
                    None => r matches Ok(repository) && repository@ == (RepositoryView {
                        url: u@,
                        path: match self.path {
                            Some(p) => p@,
                            None => Seq::empty(),
                        },
                        reference: match self.reference {
                            Some(Some(x)) => Some(x@),
                            _ => None,
                        },
                    }),
                },
            },
    {
        match &self.url {
            None => Err(
                WorkspaceError::Validation(String::from_str("Expected url when building repository")),
            ),
            Some(u) => {
                let parses = url_parse(u.as_str()).is_ok();
                match validate_url(u.as_str(), parses) {
                    Err(e) => Err(e),
                    Ok(()) => Ok(
                        Repository {
                            url: u.clone(),
                            path: match &self.path {
                                Some(p) => p.clone(),
                                None => String::new(),
                            },
                            reference: match &self.reference {
                                Some(Some(x)) => Some(x.clone()),
                                _ => None,
                            },
                        },
                    ),
                }
            },
        }
    }
}

impl Repository {
    /// A builder that already holds the URL.
    pub fn from_url(url: &str) -> (builder: RepositoryBuilder)
        ensures
            builder.url matches Some(u) && u@ == url@,
            builder.path is None,
            builder.reference is None,
    {
        RepositoryBuilder { url: Some(String::from_str(url)), path: None, reference: None }
    }

    /// An empty builder.
    pub fn builder() -> (builder: RepositoryBuilder)
        ensures
            builder.url is None,
            builder.path is None,
            builder.reference is None,
    {
        RepositoryBuilder { url: None, path: None, reference: None }
    }
}

/// A repository as contracts speak of it.
pub struct RepositoryView {
    pub url: Seq<char>,
    pub path: Seq<char>,
    pub reference: Option<Seq<char>>,
}

impl View for Repository {
    type V = RepositoryView;

    open spec fn view(&self) -> RepositoryView {
        RepositoryView {
            url: self.url@,
            path: self.path@,
            reference: match self.reference {
                Some(r) => Some(r@),
                None => None,
            },
        }
    }
}

impl DeepView for Repository {
    type V = RepositoryView;

    open spec fn deep_view(&self) -> RepositoryView {
        self@
    }
}

} // verus!
