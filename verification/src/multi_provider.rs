//! The façade over all providers: which of them a request goes to, and how
//! what they return is put together. A provider that fails contributes
//! nothing; it never fails the request for the others.

use vstd::prelude::*;
use vstd::string::*;
use crate::cursor;
use crate::error::{ErrorModel, ProviderError};
use crate::ident::{safe_storage_id, valid_uuid};
use crate::model::{views, Message, Project, Provider, ProviderInfo, ProviderInfoModel};
use crate::opencode;
use crate::recency::{
    by_recency, is_by_recency, lemma_ordered_is_sorted, lex_lt, precedes, sort_by_recency, Keyed,
};
use crate::search::{first_n, reversed};
use crate::text::{joined, str_eq};
use crate::vpath::{decoded_pair, decoded_storage_id, decoded_uuid};

verus! {

/// The number of results of a search for which the caller names no limit.
pub const DEFAULT_SEARCH_LIMIT: usize = 100;

/// Whether a provider belongs to the set that the caller selected; without a
/// selection every provider does.
pub open spec fn selected(provider: Provider, active: Option<Seq<Seq<char>>>) -> bool {
    match active {
        Some(tags) => tags.contains(provider.tag_text()),
        None => true,
    }
}

/// The texts of an optional list of tags.
pub open spec fn opt_tags(active: Option<Vec<String>>) -> Option<Seq<Seq<char>>> {
    match active {
        Some(tags) => Some(views(tags@)),
        None => None,
    }
}

/// Whether a request goes to `provider`, given the tags that the caller
/// selected. A tag that names no provider selects nothing.
pub fn is_active(provider: Provider, active: &Option<Vec<String>>) -> (r: bool)
    ensures
        r == selected(provider, opt_tags(*active)),
{
    match active {
        Some(tags) => {
            let mut i: usize = 0;
            while i < tags.len()
                invariant
                    i <= tags.len(),
                    opt_tags(*active) == Some(views(tags@)),
                    forall|j: int| 0 <= j < i ==> views(tags@)[j] != provider.tag_text(),
                decreases tags.len() - i,
            {
                if str_eq(tags[i].as_str(), provider.tag()) {
                    assert(views(tags@)[i as int] == provider.tag_text());
                    return true;
                }
                i = i + 1;
            }
            false
        },
        None => true,
    }
}

/// What the providers returned, put together: the results of each provider
/// that succeeded, in the order of the providers.
pub open spec fn gathered<T: View>(outcomes: Seq<Result<Vec<T>, ProviderError>>) -> Seq<T::V>
    decreases outcomes.len(),
{
    if outcomes.len() == 0 {
        Seq::empty()
    } else {
        gathered(outcomes.drop_last()) + match outcomes.last() {
            Ok(results) => views(results@),
            Err(_) => Seq::empty(),
        }
    }
}

/// Puts together what the providers returned, passing over every failure.
pub fn gather<T: View>(outcomes: Vec<Result<Vec<T>, ProviderError>>) -> (r: Vec<T>)
    ensures
        views(r@) == gathered(outcomes@),
{
    let ghost given = outcomes@;
    let mut stack = reversed(outcomes);
    let mut all: Vec<T> = Vec::new();
    proof {
        assert(views(all@) =~= Seq::<T::V>::empty());
        assert(given.take(0) =~= Seq::<Result<Vec<T>, ProviderError>>::empty());
    }
    while stack.len() > 0
        invariant
            stack.len() <= given.len(),
            stack@ == given.reverse().take(stack.len() as int),
            views(all@) == gathered(given.take(given.len() - stack.len())),
        decreases stack.len(),
    {
        let ghost done = given.len() - stack.len();
        let ghost before = all@;
        let ghost rest = stack@;
        let outcome = stack.pop().unwrap();
        proof {
            assert(outcome == rest[rest.len() - 1]);
            assert(outcome == given[done]);
            assert(given.take(done + 1).drop_last() =~= given.take(done));
            assert(given.take(done + 1).last() == outcome);
            assert(stack@ =~= given.reverse().take(stack.len() as int));
        }
        match outcome {
            Ok(results) => {
                let mut results = results;
                let ghost added = results@;
                all.append(&mut results);
                assert(views(all@) =~= views(before) + views(added));
            },
            Err(_) => {
                assert(views(all@) + Seq::<T::V>::empty() =~= views(all@));
            },
        }
    }
    assert(given.take(given.len() as int) =~= given);
    all
}

/// Of two providers of which one fails, the request gets exactly the
/// results of the other, whichever of the two comes first; ordered by
/// recency these are the same results, as many as before, newest first.
pub proof fn lemma_failure_is_isolated<T: Keyed>(failure: ProviderError, results: Vec<T>)
    ensures
        gathered(seq![Err::<Vec<T>, ProviderError>(failure), Ok(results)]) == views(results@),
        gathered(seq![Ok(results), Err::<Vec<T>, ProviderError>(failure)]) == views(results@),
        is_by_recency::<T>(by_recency::<T>(views(results@)), views(results@)),
        by_recency::<T>(views(results@)).len() == results@.len(),
{
    let first = seq![Err::<Vec<T>, ProviderError>(failure), Ok(results)];
    let second = seq![Ok(results), Err::<Vec<T>, ProviderError>(failure)];
    reveal_with_fuel(gathered, 3);
    assert(first.drop_last() =~= seq![Err::<Vec<T>, ProviderError>(failure)]);
    assert(first.drop_last().drop_last() =~= Seq::<Result<Vec<T>, ProviderError>>::empty());
    assert(second.drop_last() =~= seq![Ok::<Vec<T>, ProviderError>(results)]);
    assert(second.drop_last().drop_last() =~= Seq::<Result<Vec<T>, ProviderError>>::empty());
    assert(gathered(first) =~= views(results@));
    assert(gathered(second) =~= views(results@));
    lemma_ordered_is_sorted::<T>(views(results@), false);
}

/// A provider that fails contributes nothing: what is gathered is the same
/// without its place among the outcomes.
pub proof fn lemma_failure_contributes_nothing<T: View>(
    outcomes: Seq<Result<Vec<T>, ProviderError>>,
    i: int,
)
    requires
        0 <= i < outcomes.len(),
        outcomes[i] is Err,
    ensures
        gathered(outcomes) == gathered(outcomes.remove(i)),
    decreases outcomes.len(),
{
    if i == outcomes.len() - 1 {
        assert(outcomes.remove(i) =~= outcomes.drop_last());
        assert(gathered(outcomes.drop_last()) + Seq::<T::V>::empty() =~= gathered(
            outcomes.drop_last(),
        ));
    } else {
        lemma_failure_contributes_nothing(outcomes.drop_last(), i);
        assert(outcomes.remove(i).drop_last() =~= outcomes.drop_last().remove(i));
        assert(outcomes.remove(i).last() == outcomes.last());
    }
}

/// Lists the projects of all providers, newest first. `outcomes` holds what
/// each provider that the request went to returned.
pub fn scan_all_projects(outcomes: Vec<Result<Vec<Project>, ProviderError>>) -> (r: Vec<Project>)
    ensures
        views(r@) == by_recency::<Project>(gathered(outcomes@)),
{
    sort_by_recency(gather(outcomes))
}

/// The limit of a search: the one that the caller names, else
/// `DEFAULT_SEARCH_LIMIT`.
pub open spec fn limit_of(limit: Option<usize>) -> nat {
    match limit {
        Some(n) => n as nat,
        None => DEFAULT_SEARCH_LIMIT as nat,
    }
}

/// Puts together the matches of all providers: newest first over all of
/// them, and cut to the limit only then, so that no provider takes the
/// place of another's newer matches.
pub fn search_all_providers(
    outcomes: Vec<Result<Vec<Message>, ProviderError>>,
    limit: Option<usize>,
) -> (r: Vec<Message>)
    ensures
        views(r@) == first_n(by_recency::<Message>(gathered(outcomes@)), limit_of(limit)),
{
    let max_results = match limit {
        Some(n) => n,
        None => DEFAULT_SEARCH_LIMIT,
    };
    let mut results = sort_by_recency(gather(outcomes));
    let ghost sorted = results@;
    results.truncate(max_results);
    proof {
        if max_results < sorted.len() {
            assert(views(results@) =~= views(sorted).take(max_results as int));
        } else {
            assert(results@ =~= sorted);
        }
    }
    results
}

/// Where the providers together return more matches than the limit, a
/// search returns exactly as many as the limit: the first of all matches
/// by recency, none of them older than a match that was left out.
pub proof fn lemma_search_keeps_the_newest(
    outcomes: Seq<Result<Vec<Message>, ProviderError>>,
    limit: nat,
)
    requires
        gathered(outcomes).len() > limit,
    ensures
        ({
            let sorted = by_recency::<Message>(gathered(outcomes));
            let kept = first_n(sorted, limit);
            &&& kept.len() == limit
            &&& kept == sorted.take(limit as int)
            &&& is_by_recency::<Message>(sorted, gathered(outcomes))
            &&& forall|i: int, j: int|
                0 <= i < limit <= j < sorted.len() ==> !lex_lt(
                    kept[i].timestamp,
                    sorted[j].timestamp,
                )
        }),
{
    let sorted = by_recency::<Message>(gathered(outcomes));
    let kept = first_n(sorted, limit);
    lemma_ordered_is_sorted::<Message>(gathered(outcomes), false);
    assert forall|i: int, j: int| 0 <= i < limit <= j < sorted.len() implies !lex_lt(
        kept[i].timestamp,
        sorted[j].timestamp,
    ) by {
        assert(kept[i] == sorted[i]);
        assert(!precedes(
            Message::key_of(sorted[j]),
            Message::key_of(sorted[i]),
            false,
        ));
    }
}

/// The installations that were found, in the order of the providers.
pub open spec fn found_infos(probes: Seq<Option<ProviderInfo>>) -> Seq<ProviderInfoModel>
    decreases probes.len(),
{
    if probes.len() == 0 {
        Seq::empty()
    } else {
        let before = found_infos(probes.drop_last());
        match probes.last() {
            Some(info) => before.push(info@),
            None => before,
        }
    }
}

/// Lists the providers that were detected. `probes` holds what `detect` of
/// each provider returned.
pub fn detect_providers(probes: Vec<Option<ProviderInfo>>) -> (r: Vec<ProviderInfo>)
    ensures
        views(r@) == found_infos(probes@),
{
    let ghost given = probes@;
    let mut stack = reversed(probes);
    let mut infos: Vec<ProviderInfo> = Vec::new();
    proof {
        assert(views(infos@) =~= Seq::<ProviderInfoModel>::empty());
        assert(given.take(0) =~= Seq::<Option<ProviderInfo>>::empty());
    }
    while stack.len() > 0
        invariant
            stack.len() <= given.len(),
            stack@ == given.reverse().take(stack.len() as int),
            views(infos@) == found_infos(given.take(given.len() - stack.len())),
        decreases stack.len(),
    {
        let ghost done = given.len() - stack.len();
        let ghost before = infos@;
        let ghost rest = stack@;
        let probe = stack.pop().unwrap();
        proof {
            assert(probe == rest[rest.len() - 1]);
            assert(probe == given[done]);
            assert(given.take(done + 1).drop_last() =~= given.take(done));
            assert(given.take(done + 1).last() == probe);
            assert(stack@ =~= given.reverse().take(stack.len() as int));
        }
        match probe {
            Some(info) => {
                infos.push(info);
                assert(views(infos@) =~= views(before).push(info@));
            },
            None => {},
        }
    }
    assert(given.take(given.len() as int) =~= given);
    infos
}

/// Where the sessions of a project are to be loaded from.
#[derive(Clone, Debug, PartialEq, Eq)]
pub enum SessionsTarget {
    /// The project path, as it was given.
    Codex { project_path: String },
    /// The identifier of the project, a safe storage identifier.
    OpenCode { project_id: String },
    /// The name of the workspace directory, a safe storage identifier.
    Cursor { workspace: String },
}

/// The view of a `SessionsTarget`.
pub enum SessionsTargetModel {
    Codex { project_path: Seq<char> },
    OpenCode { project_id: Seq<char> },
    Cursor { workspace: Seq<char> },
}

impl View for SessionsTarget {
    type V = SessionsTargetModel;

    open spec fn view(&self) -> SessionsTargetModel {
        match *self {
            SessionsTarget::Codex { project_path } => SessionsTargetModel::Codex {
                project_path: project_path@,
            },
            SessionsTarget::OpenCode { project_id } => SessionsTargetModel::OpenCode {
                project_id: project_id@,
            },
            SessionsTarget::Cursor { workspace } => SessionsTargetModel::Cursor {
                workspace: workspace@,
            },
        }
    }
}

/// The error for a tag that names no provider.
pub open spec fn unknown_provider(tag: Seq<char>) -> ErrorModel {
    ErrorModel::UnknownProvider("Unknown provider: "@ + tag)
}

/// Where the sessions of a project are to be loaded from: the error for a
/// tag that names no provider, the error of validation for an identifier
/// that fails it, else the target.
pub open spec fn sessions_target(tag: Seq<char>, project_path: Seq<char>) -> Result<
    SessionsTargetModel,
    ErrorModel,
> {
    match Provider::of_tag(tag) {
        Some(Provider::Codex) => Ok(SessionsTargetModel::Codex { project_path }),
        Some(Provider::OpenCode) => match decoded_storage_id(
            project_path,
            Provider::OpenCode,
            "Invalid OpenCode project path: "@,
        ) {
            Ok(project_id) => Ok(SessionsTargetModel::OpenCode { project_id }),
            Err(e) => Err(e),
        },
        Some(Provider::Cursor) => match decoded_storage_id(
            project_path,
            Provider::Cursor,
            "Invalid workspace hash: "@,
        ) {
            Ok(workspace) => Ok(SessionsTargetModel::Cursor { workspace }),
            Err(e) => Err(e),
        },
        None => Err(unknown_provider(tag)),
    }
}

/// The view of a target or an error.
pub open spec fn target_view<T: View>(r: Result<T, ProviderError>) -> Result<T::V, ErrorModel> {
    match r {
        Ok(target) => Ok(target@),
        Err(e) => Err(e@),
    }
}

fn provider_for(tag: &str) -> (r: Result<Provider, ProviderError>)
    ensures
        match r {
            Ok(p) => Provider::of_tag(tag@) == Some(p),
            Err(e) => Provider::of_tag(tag@) is None && e@ == unknown_provider(tag@),
        },
{
    match Provider::from_tag(tag) {
        Some(provider) => Ok(provider),
        None => Err(ProviderError::UnknownProvider(joined("Unknown provider: ", tag))),
    }
}

/// Decides where the sessions of a project are loaded from. Nothing is
/// looked up before this has returned a target.
pub fn load_provider_sessions(provider: &str, project_path: &str) -> (r: Result<
    SessionsTarget,
    ProviderError,
>)
    ensures
        target_view(r) == sessions_target(provider@, project_path@),
{
    match provider_for(provider) {
        Ok(Provider::Codex) => Ok(
            SessionsTarget::Codex { project_path: String::from_str(project_path) },
        ),
        Ok(Provider::OpenCode) => match opencode::decode_project_path(project_path) {
            Ok(project_id) => Ok(SessionsTarget::OpenCode { project_id }),
            Err(e) => Err(e),
        },
        Ok(Provider::Cursor) => match cursor::decode_project_path(project_path) {
            Ok(workspace) => Ok(SessionsTarget::Cursor { workspace }),
            Err(e) => Err(e),
        },
        Err(e) => Err(e),
    }
}

/// Where the messages of a session are to be loaded from.
#[derive(Clone, Debug, PartialEq, Eq)]
pub enum MessagesTarget {
    /// The session path, as it was given.
    Codex { session_path: String },
    /// The identifiers of the project and of the session, both safe storage
    /// identifiers.
    OpenCode { project_id: String, session_id: String },
    /// The identifier of the conversation, a canonical UUID.
    Cursor { composer_id: String },
}

/// The view of a `MessagesTarget`.
pub enum MessagesTargetModel {
    Codex { session_path: Seq<char> },
    OpenCode { project_id: Seq<char>, session_id: Seq<char> },
    Cursor { composer_id: Seq<char> },
}

impl View for MessagesTarget {
    type V = MessagesTargetModel;

    open spec fn view(&self) -> MessagesTargetModel {
        match *self {
            MessagesTarget::Codex { session_path } => MessagesTargetModel::Codex {
                session_path: session_path@,
            },
            MessagesTarget::OpenCode { project_id, session_id } => MessagesTargetModel::OpenCode {
                project_id: project_id@,
                session_id: session_id@,
            },
            MessagesTarget::Cursor { composer_id } => MessagesTargetModel::Cursor {
                composer_id: composer_id@,
            },
        }
    }
}

/// Where the messages of a session are to be loaded from: the error for a
/// tag that names no provider, the error of validation for an identifier
/// that fails it, else the target.
pub open spec fn messages_target(tag: Seq<char>, session_path: Seq<char>) -> Result<
    MessagesTargetModel,
    ErrorModel,
> {
    match Provider::of_tag(tag) {
        Some(Provider::Codex) => Ok(MessagesTargetModel::Codex { session_path }),
        Some(Provider::OpenCode) => match decoded_pair(
            session_path,
            Provider::OpenCode,
            "Invalid OpenCode session path: "@,
        ) {
            Ok((project_id, session_id)) => Ok(
                MessagesTargetModel::OpenCode { project_id, session_id },
            ),
            Err(e) => Err(e),
        },
        Some(Provider::Cursor) => match decoded_uuid(
            session_path,
            Provider::Cursor,
            "Invalid composer ID: "@,
        ) {
            Ok(composer_id) => Ok(MessagesTargetModel::Cursor { composer_id }),
            Err(e) => Err(e),
        },
        None => Err(unknown_provider(tag)),
    }
}

/// No identifier reaches a lookup without validation: the targets for
/// OpenCode and Cursor hold only safe storage identifiers and canonical
/// UUIDs.
pub proof fn lemma_targets_are_validated(tag: Seq<char>, path: Seq<char>)
    ensures
        sessions_target(tag, path) matches Ok(SessionsTargetModel::OpenCode { project_id })
            ==> safe_storage_id(project_id),
        sessions_target(tag, path) matches Ok(SessionsTargetModel::Cursor { workspace })
            ==> safe_storage_id(workspace),
        messages_target(tag, path) matches Ok(
            MessagesTargetModel::OpenCode { project_id, session_id },
        ) ==> safe_storage_id(project_id) && safe_storage_id(session_id),
        messages_target(tag, path) matches Ok(MessagesTargetModel::Cursor { composer_id })
            ==> valid_uuid(composer_id),
{
}

/// Decides where the messages of a session are loaded from. Nothing is
/// looked up before this has returned a target.
pub fn load_provider_messages(provider: &str, session_path: &str) -> (r: Result<
    MessagesTarget,
    ProviderError,
>)
    ensures
        target_view(r) == messages_target(provider@, session_path@),
{
    match provider_for(provider) {
        Ok(Provider::Codex) => Ok(
            MessagesTarget::Codex { session_path: String::from_str(session_path) },
        ),
        Ok(Provider::OpenCode) => match opencode::decode_session_path(session_path) {
            Ok((project_id, session_id)) => Ok(MessagesTarget::OpenCode { project_id, session_id }),
            Err(e) => Err(e),
        },
        Ok(Provider::Cursor) => match cursor::decode_session_path(session_path) {
            Ok(composer_id) => Ok(MessagesTarget::Cursor { composer_id }),
            Err(e) => Err(e),
        },
        Err(e) => Err(e),
    }
}

} // verus!
