use crate::errors::AppError;
use crate::language::Language;
use vstd::prelude::*;
use vstd::string::StringExecFns;

verus! {

/// The repository fields the upstream lookup capability hands over, each
/// optional field exactly as the upstream payload had it.
#[derive(Debug)]
pub struct RepoParts {
    pub name: String,
    /// The owner's login and avatar URL, when the payload carries an owner.
    pub owner: Option<(String, String)>,
    pub html_url: Option<String>,
    pub languages_url: Option<String>,
    pub open_issues_count: Option<u32>,
    pub stargazers_count: Option<u32>,
    pub watchers_count: Option<u32>,
    pub forks_count: Option<u32>,
}

/// Repository metadata as displayed: absent owner or URL fields fall back to
/// placeholder strings, absent counts to zero.
#[derive(Debug)]
pub struct RepositorySummary {
    pub name: String,
    pub owner: String,
    pub html_url: String,
    pub avatar_url: String,
    pub open_issues_count: u32,
    pub stargazers_count: u32,
    pub watchers_count: u32,
    pub forks_count: u32,
}

/// The defaults the summary owes: "unknown" for a missing owner login, "/"
/// for a missing URL, zero for a missing count.
pub open spec fn summary_matches(s: RepositorySummary, p: RepoParts) -> bool {
    &&& s.name@ == p.name@
    &&& s.owner@ == match p.owner {
        Some(o) => o.0@,
        None => "unknown"@,
    }
    &&& s.avatar_url@ == match p.owner {
        Some(o) => o.1@,
        None => "/"@,
    }
    &&& s.html_url@ == match p.html_url {
        Some(u) => u@,
        None => "/"@,
    }
    &&& s.open_issues_count == match p.open_issues_count {
        Some(c) => c,
        None => 0u32,
    }
    &&& s.stargazers_count == match p.stargazers_count {
        Some(c) => c,
        None => 0u32,
    }
    &&& s.watchers_count == match p.watchers_count {
        Some(c) => c,
        None => 0u32,
    }
    &&& s.forks_count == match p.forks_count {
        Some(c) => c,
        None => 0u32,
    }
}

/// Fills the displayed summary from the raw payload fields, applying the
/// placeholder and zero defaults for whatever the payload left out.
pub fn summarize_repository(parts: &RepoParts) -> (r: RepositorySummary)
    ensures
        summary_matches(r, *parts),
{
    RepositorySummary {
        name: parts.name.clone(),
        owner: match &parts.owner {
            Some(o) => o.0.clone(),
            None => "unknown".to_owned(),
        },
        avatar_url: match &parts.owner {
            Some(o) => o.1.clone(),
            None => "/".to_owned(),
        },
        html_url: match &parts.html_url {
            Some(u) => u.clone(),
            None => "/".to_owned(),
        },
        open_issues_count: match parts.open_issues_count {
            Some(c) => c,
            None => 0,
        },
        stargazers_count: match parts.stargazers_count {
            Some(c) => c,
            None => 0,
        },
        watchers_count: match parts.watchers_count {
            Some(c) => c,
            None => 0,
        },
        forks_count: match parts.forks_count {
            Some(c) => c,
            None => 0,
        },
    }
}

/// The repository half of the pipeline after a successful upstream lookup:
/// builds the displayed summary and extracts the languages URL. A payload
/// without a languages URL yields a per-request precondition error, never a
/// process abort.
pub fn prepare_repository(parts: RepoParts) -> (r: Result<(RepositorySummary, String), AppError>)
    ensures
        match parts.languages_url {
            Some(u) => r matches Ok(p) && summary_matches(p.0, parts) && p.1@ == u@,
            None => r matches Err(e) && e is Precondition && e.spec_message()
                == "Repository payload has no languages URL."@,
        },
{
    let summary = summarize_repository(&parts);
    match parts.languages_url {
        Some(url) => Ok((summary, url)),
        None => Err(
            AppError::Precondition {
                message: "Repository payload has no languages URL.".to_owned(),
            },
        ),
    }
}

/// Classifies a failed upstream repository lookup: the capability's error
/// message surfaces as an upstream error — a server-error response, never a
/// crash.
pub fn upstream_failure(message: String) -> (r: AppError)
    ensures
        r is Upstream,
        r.spec_message() == message@,
{
    AppError::Upstream { message }
}

/// The view handed to the renderer: the repository's metadata and its
/// language breakdown.
#[derive(Debug)]
pub struct RepoView {
    pub name: String,
    pub owner: String,
    pub html_url: String,
    pub avatar_url: String,
    pub open_issues_count: u32,
    pub stargazers_count: u32,
    pub watchers_count: u32,
    pub forks_count: u32,
    pub languages: Vec<Language>,
}

/// Assembles the renderer's view from the summary and the language
/// breakdown, field for field.
pub fn build_repo_view(summary: RepositorySummary, languages: Vec<Language>) -> (r: RepoView)
    ensures
        r.name == summary.name,
        r.owner == summary.owner,
        r.html_url == summary.html_url,
        r.avatar_url == summary.avatar_url,
        r.open_issues_count == summary.open_issues_count,
        r.stargazers_count == summary.stargazers_count,
        r.watchers_count == summary.watchers_count,
        r.forks_count == summary.forks_count,
        r.languages == languages,
{
    RepoView {
        name: summary.name,
        owner: summary.owner,
        html_url: summary.html_url,
        avatar_url: summary.avatar_url,
        open_issues_count: summary.open_issues_count,
        stargazers_count: summary.stargazers_count,
        watchers_count: summary.watchers_count,
        forks_count: summary.forks_count,
        languages,
    }
}

/// The decision after the render capability ran: rendered markup passes
/// through; a renderer failure surfaces as a rendering error carrying the
/// renderer's message.
pub fn classify_render(rendered: Result<String, String>) -> (r: Result<String, AppError>)
    ensures
        match rendered {
            Ok(html) => r matches Ok(h) && h@ == html@,
            Err(msg) => r matches Err(e) && e is Render && e.spec_message()
                == "Failed to render template. Error: "@ + msg@,
        },
{
    match rendered {
        Ok(html) => Ok(html),
        Err(msg) => {
            let mut message = "Failed to render template. Error: ".to_owned();
            message.append(msg.as_str());
            Err(AppError::Render { message })
        },
    }
}

} // verus!
