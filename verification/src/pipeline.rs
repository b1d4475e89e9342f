//! One step of the server's request pipeline: a client sends several queries at
//! once, each is answered in turn, and the answers go back in the order of the
//! queries. This module decides, for each query, whether the pipeline can go
//! on, which database request the query needs, and how the query's outcome
//! becomes its answer. Running a query is left to the server loop.
use vstd::prelude::*;
use crate::errors::AIProxyError;
use crate::operations::{DbCreateStore, create_store_db_params, db_map_of, is_merged_listing, list_stores_merged};
use crate::replication::{CreateStore, DropStore};
use crate::store::{
    AIStoreHandler, AiStoreInfo, CreateOutcome, DbStoreInfo, DropOutcome, create_effect, create_outcome,
    create_result_matches, drop_outcome, drop_result_matches,
};
use crate::models::{embedding_size_of, spec_from_ai_model};
use crate::keyval::reserved_meta_key;
use crate::operations::views_of;
use crate::operations::{
    KeyInCondition, SetInput, SetPlan, copy_set_inputs, del_key_condition, param_views, set_begin,
    set_begin_result, set_pairs,
};
use crate::keyed::StrMap;
use crate::keyval::StoreInput;
use crate::models::AiModel;

verus! {

/// The kinds of query a pipeline may hold.
#[derive(Clone, Copy, Debug, PartialEq, Eq, Structural)]
pub enum PipelineQuery {
    Ping,
    CreateStore,
    CreatePredIndex,
    CreateNonLinearAlgorithmIndex,
    GetSimN,
    GetPred,
    ListClients,
    ListStores,
    InfoServer,
    GetKey,
    DelKey,
    DropPredIndex,
    DropNonLinearAlgorithmIndex,
    PurgeStores,
    SetEntries,
    DropStore,
}

/// The kinds of response a query that succeeds is answered with.
#[derive(Clone, Copy, Debug, PartialEq, Eq, Structural)]
pub enum ResponseKind {
    Pong,
    Unit,
    CreateIndex,
    GetSimN,
    Get,
    ClientList,
    StoreList,
    InfoServer,
    Del,
    Upsert,
}

/// The request a query sends to the database, if any.
#[derive(Clone, Copy, Debug, PartialEq, Eq, Structural)]
pub enum DbRequest {
    /// The query is answered by the proxy alone.
    NoRequest,
    CreateStore,
    CreatePredIndex,
    CreateNonLinearAlgorithmIndex,
    GetPred,
    GetSimN,
    /// A database pipeline: a delete of replaced entries, if any, then a set.
    DeleteThenSet,
    DelPred,
    DropPredIndex,
    DropNonLinearAlgorithmIndex,
    /// A drop of the store, sent only when the proxy has the store.
    DropStore,
    /// A drop of each store the proxy has, none of them an error if missing.
    DropEachStore,
    /// The database's listing of its stores.
    ListStores,
}

/// What the server does next with a pipeline entry: run the query, or refuse
/// the whole pipeline, with this message and status code, because the entry
/// holds no query.
#[derive(Debug, PartialEq, Eq)]
pub enum PipelineStep {
    Run(PipelineQuery),
    Refuse { message: String, code: i32 },
}

/// The status code of a request with an invalid argument.
pub const INVALID_ARGUMENT: i32 = 3;

/// The answer to one query of a pipeline: the query's response, or its error
/// with the message and status code the query failed with.
#[derive(Debug)]
pub enum PipelineAnswer<R> {
    Response(ResponseKind, R),
    Error { message: String, code: i32 },
}

/// The response kind a query is answered with when it succeeds.
pub open spec fn spec_response_kind(q: PipelineQuery) -> ResponseKind {
    match q {
        PipelineQuery::Ping => ResponseKind::Pong,
        PipelineQuery::CreateStore => ResponseKind::Unit,
        PipelineQuery::CreatePredIndex => ResponseKind::CreateIndex,
        PipelineQuery::CreateNonLinearAlgorithmIndex => ResponseKind::CreateIndex,
        PipelineQuery::GetSimN => ResponseKind::GetSimN,
        PipelineQuery::GetPred => ResponseKind::Get,
        PipelineQuery::ListClients => ResponseKind::ClientList,
        PipelineQuery::ListStores => ResponseKind::StoreList,
        PipelineQuery::InfoServer => ResponseKind::InfoServer,
        PipelineQuery::GetKey => ResponseKind::Get,
        PipelineQuery::DelKey => ResponseKind::Del,
        PipelineQuery::DropPredIndex => ResponseKind::Del,
        PipelineQuery::DropNonLinearAlgorithmIndex => ResponseKind::Del,
        PipelineQuery::PurgeStores => ResponseKind::Del,
        PipelineQuery::SetEntries => ResponseKind::Upsert,
        PipelineQuery::DropStore => ResponseKind::Del,
    }
}

/// The database request a query needs. Pings and the server and client
/// listings are answered from the proxy's own state.
pub open spec fn spec_db_request(q: PipelineQuery) -> DbRequest {
    match q {
        PipelineQuery::CreateStore => DbRequest::CreateStore,
        PipelineQuery::CreatePredIndex => DbRequest::CreatePredIndex,
        PipelineQuery::CreateNonLinearAlgorithmIndex => DbRequest::CreateNonLinearAlgorithmIndex,
        PipelineQuery::GetSimN => DbRequest::GetSimN,
        PipelineQuery::GetPred => DbRequest::GetPred,
        PipelineQuery::GetKey => DbRequest::GetPred,
        PipelineQuery::DelKey => DbRequest::DelPred,
        PipelineQuery::DropPredIndex => DbRequest::DropPredIndex,
        PipelineQuery::DropNonLinearAlgorithmIndex => DbRequest::DropNonLinearAlgorithmIndex,
        PipelineQuery::SetEntries => DbRequest::DeleteThenSet,
        PipelineQuery::DropStore => DbRequest::DropStore,
        PipelineQuery::PurgeStores => DbRequest::DropEachStore,
        PipelineQuery::ListStores => DbRequest::ListStores,
        _ => DbRequest::NoRequest,
    }
}

/// The answer a query's outcome gives.
pub open spec fn spec_answer<R>(q: PipelineQuery, outcome: Result<R, (String, i32)>) -> PipelineAnswer<R> {
    match outcome {
        Ok(r) => PipelineAnswer::Response(spec_response_kind(q), r),
        Err((message, code)) => PipelineAnswer::Error { message, code },
    }
}

/// Each query that reaches the database sends the request of its own kind:
/// index creations and drops, searches, deletions by key and sets keep their
/// kind, and a lookup by key is a lookup by predicate.
pub proof fn law_db_request_kinds()
    ensures
        spec_db_request(PipelineQuery::CreateStore) == DbRequest::CreateStore,
        spec_db_request(PipelineQuery::CreatePredIndex) == DbRequest::CreatePredIndex,
        spec_db_request(PipelineQuery::CreateNonLinearAlgorithmIndex)
            == DbRequest::CreateNonLinearAlgorithmIndex,
        spec_db_request(PipelineQuery::DropPredIndex) == DbRequest::DropPredIndex,
        spec_db_request(PipelineQuery::DropNonLinearAlgorithmIndex) == DbRequest::DropNonLinearAlgorithmIndex,
        spec_db_request(PipelineQuery::GetSimN) == DbRequest::GetSimN,
        spec_db_request(PipelineQuery::GetPred) == DbRequest::GetPred,
        spec_db_request(PipelineQuery::GetKey) == DbRequest::GetPred,
        spec_db_request(PipelineQuery::DelKey) == DbRequest::DelPred,
        spec_db_request(PipelineQuery::SetEntries) == DbRequest::DeleteThenSet,
        spec_db_request(PipelineQuery::DropStore) == DbRequest::DropStore,
        spec_db_request(PipelineQuery::PurgeStores) == DbRequest::DropEachStore,
        spec_db_request(PipelineQuery::ListStores) == DbRequest::ListStores,
{
}

/// Two different queries that reach the database send different requests,
/// but for a lookup by key and a lookup by predicate, which send the same
/// predicate lookup; and only pings and the server and client listings send
/// none.
pub proof fn law_db_requests_tell_queries_apart(a: PipelineQuery, b: PipelineQuery)
    ensures
        spec_db_request(a) == DbRequest::NoRequest <==> (a == PipelineQuery::Ping || a
            == PipelineQuery::InfoServer || a == PipelineQuery::ListClients),
        spec_db_request(a) != DbRequest::NoRequest && spec_db_request(a) == spec_db_request(b) && a != b
            ==> (a == PipelineQuery::GetKey && b == PipelineQuery::GetPred) || (a == PipelineQuery::GetPred && b
            == PipelineQuery::GetKey),
{
}

/// The response kind a query is answered with when it succeeds.
pub fn response_kind(q: PipelineQuery) -> (res: ResponseKind)
    ensures
        res == spec_response_kind(q),
{
    match q {
        PipelineQuery::Ping => ResponseKind::Pong,
        PipelineQuery::CreateStore => ResponseKind::Unit,
        PipelineQuery::CreatePredIndex => ResponseKind::CreateIndex,
        PipelineQuery::CreateNonLinearAlgorithmIndex => ResponseKind::CreateIndex,
        PipelineQuery::GetSimN => ResponseKind::GetSimN,
        PipelineQuery::GetPred => ResponseKind::Get,
        PipelineQuery::ListClients => ResponseKind::ClientList,
        PipelineQuery::ListStores => ResponseKind::StoreList,
        PipelineQuery::InfoServer => ResponseKind::InfoServer,
        PipelineQuery::GetKey => ResponseKind::Get,
        PipelineQuery::DelKey => ResponseKind::Del,
        PipelineQuery::DropPredIndex => ResponseKind::Del,
        PipelineQuery::DropNonLinearAlgorithmIndex => ResponseKind::Del,
        PipelineQuery::PurgeStores => ResponseKind::Del,
        PipelineQuery::SetEntries => ResponseKind::Upsert,
        PipelineQuery::DropStore => ResponseKind::Del,
    }
}

/// The database request a query needs.
pub fn db_request(q: PipelineQuery) -> (res: DbRequest)
    ensures
        res == spec_db_request(q),
{
    match q {
        PipelineQuery::CreateStore => DbRequest::CreateStore,
        PipelineQuery::CreatePredIndex => DbRequest::CreatePredIndex,
        PipelineQuery::CreateNonLinearAlgorithmIndex => DbRequest::CreateNonLinearAlgorithmIndex,
        PipelineQuery::GetSimN => DbRequest::GetSimN,
        PipelineQuery::GetPred => DbRequest::GetPred,
        PipelineQuery::GetKey => DbRequest::GetPred,
        PipelineQuery::DelKey => DbRequest::DelPred,
        PipelineQuery::DropPredIndex => DbRequest::DropPredIndex,
        PipelineQuery::DropNonLinearAlgorithmIndex => DbRequest::DropNonLinearAlgorithmIndex,
        PipelineQuery::SetEntries => DbRequest::DeleteThenSet,
        PipelineQuery::DropStore => DbRequest::DropStore,
        PipelineQuery::PurgeStores => DbRequest::DropEachStore,
        PipelineQuery::ListStores => DbRequest::ListStores,
        _ => DbRequest::NoRequest,
    }
}

/// What to do with the next pipeline entry: run its query, or, when it holds
/// none, refuse the whole pipeline with an invalid-argument status and the
/// message "query is required", giving no answers; the queries before it have
/// already run, and those after it do not.
pub fn next_step(entry: Option<PipelineQuery>) -> (res: PipelineStep)
    ensures
        match entry {
            Some(q) => res == PipelineStep::Run(q),
            None => res matches PipelineStep::Refuse { message, code } && message@
                == "query is required"@ && code == INVALID_ARGUMENT,
        },
{
    match entry {
        Some(q) => PipelineStep::Run(q),
        None => PipelineStep::Refuse { message: String::from_str("query is required"), code: INVALID_ARGUMENT },
    }
}

/// The answer a query's outcome gives: its response, tagged with the query's
/// response kind, or its error's message and code. A failed query does not
/// stop the pipeline.
pub fn answer_of<R>(q: PipelineQuery, outcome: Result<R, (String, i32)>) -> (res: PipelineAnswer<R>)
    ensures
        res == spec_answer(q, outcome),
{
    match outcome {
        Ok(r) => PipelineAnswer::Response(response_kind(q), r),
        Err((message, code)) => PipelineAnswer::Error { message, code },
    }
}

/// Records the answer to the next query after those already answered.
pub fn record_answer<R>(
    answers: &mut Vec<PipelineAnswer<R>>,
    q: PipelineQuery,
    outcome: Result<R, (String, i32)>,
)
    ensures
        final(answers)@ == old(answers)@.push(spec_answer(q, outcome)),
{
    let a = answer_of(q, outcome);
    answers.push(a);
}

/// The answers to a run of queries, given the outcome of each: one answer per
/// query, in the order of the queries.
pub fn answer_all<R>(queries: &Vec<PipelineQuery>, outcomes: Vec<Result<R, (String, i32)>>) -> (res:
    Vec<PipelineAnswer<R>>)
    requires
        queries@.len() == outcomes@.len(),
    ensures
        res@.len() == queries@.len(),
        forall|i: int|
            0 <= i < queries@.len() ==> #[trigger] res@[i] == spec_answer(queries@[i], outcomes@[i]),
{
    let ghost outs = outcomes@;
    let mut rest = crate::seqs::reversed(outcomes);
    let mut answers: Vec<PipelineAnswer<R>> = Vec::new();
    let mut i: usize = 0;
    while i < queries.len()
        invariant
            queries@.len() == outs.len(),
            i + rest@.len() == outs.len(),
            i <= queries@.len(),
            forall|k: int| 0 <= k < rest@.len() ==> #[trigger] rest@[k] == outs[outs.len() - 1 - k],
            answers@.len() == i,
            forall|k: int| 0 <= k < i ==> #[trigger] answers@[k] == spec_answer(queries@[k], outs[k]),
        decreases queries@.len() - i,
    {
        let outcome = rest.pop().unwrap();
        record_answer(&mut answers, queries[i], outcome);
        i = i + 1;
    }
    answers
}

/// A query as the server step sees it. The queries on the proxy's own stores
/// carry their parameters; the others are forwarded to the database, and what
/// they send and make of the reply is decided by the functions of
/// `operations`.
#[derive(Debug)]
pub enum ServerQuery {
    Ping,
    InfoServer,
    ListClients,
    ListStores,
    CreateStore(CreateStore),
    DropStore(DropStore),
    PurgeStores,
    /// A deletion by original inputs.
    DelKey { store: String, keys: Vec<StoreInput> },
    /// A similarity search in the store; its search input is embedded by the
    /// server.
    GetSimN { store: String },
    /// A `set` of these inputs, with these model parameters.
    SetEntries { store: String, inputs: Vec<SetInput>, model_params: StrMap<String> },
    Forward(PipelineQuery),
}

/// Whether a query kind is run through `ServerQuery::Forward`.
pub open spec fn forwarded(q: PipelineQuery) -> bool {
    match q {
        PipelineQuery::Ping | PipelineQuery::InfoServer | PipelineQuery::ListClients
        | PipelineQuery::ListStores | PipelineQuery::CreateStore | PipelineQuery::DropStore
        | PipelineQuery::PurgeStores | PipelineQuery::DelKey | PipelineQuery::GetSimN
        | PipelineQuery::SetEntries => false,
        _ => true,
    }
}

/// What the database did with the request last sent for the query.
#[derive(Debug)]
pub enum DbEvent {
    /// Nothing has been sent yet: the query has just arrived.
    Arrived,
    /// The request succeeded.
    Done,
    /// The request failed, with its message and status code.
    Failed { message: String, code: i32 },
    /// The database's listing of its stores came back.
    Listed(Vec<DbStoreInfo>),
}

/// A request for the database.
#[derive(Debug)]
pub enum DbCall {
    CreateStore(DbCreateStore),
    /// Drop each of these stores, one after the other, stopping at a failure.
    DropStores { stores: Vec<String>, error_if_not_exists: bool },
    ListStores,
    /// A deletion of the entries that match the condition.
    DelPred(KeyInCondition),
    /// A `set` with no entries.
    EmptySet,
    Request(DbRequest),
}

/// The answer to a query.
#[derive(Debug)]
pub enum ServerAnswer {
    Pong,
    /// The server's information, which the server fills in.
    InfoServer,
    /// The connected clients, which the server fills in.
    ClientList,
    Unit,
    Deleted(u64),
    StoreList(Vec<AiStoreInfo>),
    /// A response of this kind, built from the database's reply by the
    /// functions of `operations`.
    FromReply(ResponseKind),
    /// The query failed in the proxy.
    ProxyError(AIProxyError),
    /// The database refused the query's request.
    DbError { message: String, code: i32 },
}

/// What the server does after a step: send the database a request and step
/// again with its outcome, or answer the query.
#[derive(Debug)]
pub enum ServerAction {
    Send(DbCall),
    /// Embed the search input with this model (the key is picked by
    /// `query_key_from_responses`), send the search, and step again with its
    /// outcome.
    EmbedAndSearch(AiModel),
    /// Embed the plan's inputs with its model, make the entries with
    /// `set_entries`, send a database pipeline that deletes the plan's replaced
    /// inputs, when there are, and sets the entries, and step again with its
    /// outcome.
    EmbedAndSet(SetPlan),
    Answer(ServerAnswer),
}

/// `names` names each store of `stores` once.
pub open spec fn names_each_store(names: Seq<String>, stores: Set<Seq<char>>) -> bool {
    &&& names.len() == stores.len()
    &&& forall|i: int, j: int|
        0 <= i < names.len() && 0 <= j < names.len() && i != j ==> #[trigger] names[i]@ != #[trigger] names[j]@
    &&& forall|i: int| 0 <= i < names.len() ==> stores.contains(#[trigger] names[i]@)
    &&& forall|n: Seq<char>| stores.contains(n) ==> exists|i: int| 0 <= i < names.len() && #[trigger] names[i]@ == n
}

/// The names of the stores the handler has.
fn store_names(handler: &AIStoreHandler) -> (res: Vec<String>)
    requires
        handler.wf(),
    ensures
        names_each_store(res@, handler.stores().dom()),
{
    let infos = handler.list_stores();
    let mut names: Vec<String> = Vec::new();
    let mut i: usize = 0;
    while i < infos.len()
        invariant
            0 <= i <= infos@.len(),
            names@.len() == i,
            forall|j: int| 0 <= j < i ==> (#[trigger] names@[j])@ == infos@[j].name@,
        decreases infos@.len() - i,
    {
        names.push(infos[i].name.clone());
        i = i + 1;
    }
    proof {
        assert forall|a: int, b: int|
            0 <= a < names@.len() && 0 <= b < names@.len() && a != b implies #[trigger] names@[a]@
            != #[trigger] names@[b]@ by {
            assert(infos@[a].name@ != infos@[b].name@);
        }
        assert forall|a: int| 0 <= a < names@.len() implies handler.stores().dom().contains(
            #[trigger] names@[a]@,
        ) by {
            assert(handler.stores().dom().contains(infos@[a].name@));
        }
        assert forall|n: Seq<char>| handler.stores().dom().contains(n) implies exists|a: int|
            0 <= a < names@.len() && #[trigger] names@[a]@ == n by {
            let a = choose|a: int| 0 <= a < infos@.len() && #[trigger] infos@[a].name@ == n;
            assert(names@[a]@ == n);
        }
    }
    names
}

/// One step of a query: what the server does with it given what the database
/// last did. A store is created in the proxy only after the database has
/// created it, and dropped in the database first only when the proxy has it;
/// a purge drops every store in the database, then in the proxy; a failed
/// database request fails the query and leaves the proxy's stores alone. The
/// store listing goes out without the database's report when the database
/// fails to give one. A deletion by original inputs, a similarity search and
/// a `set` are checked against the proxy's stores first, and a refusal is
/// answered without a database request.
pub fn server_step(handler: &mut AIStoreHandler, query: &ServerQuery, event: DbEvent) -> (res: ServerAction)
    requires
        old(handler).wf(),
        *query matches ServerQuery::Forward(q) ==> forwarded(q),
        *query matches ServerQuery::SetEntries { inputs, model_params, .. } ==> model_params.wf() && forall|i: int|
            0 <= i < inputs@.len() ==> crate::operations::set_input_wf(#[trigger] inputs@[i]),
    ensures
        final(handler).wf(),
        final(handler).supported() == old(handler).supported(),
        match *query {
            ServerQuery::Ping => res == ServerAction::Answer(ServerAnswer::Pong)
                && *final(handler) == *old(handler),
            ServerQuery::InfoServer => res == ServerAction::Answer(ServerAnswer::InfoServer)
                && *final(handler) == *old(handler),
            ServerQuery::ListClients => res == ServerAction::Answer(ServerAnswer::ClientList)
                && *final(handler) == *old(handler),
            ServerQuery::ListStores => *final(handler) == *old(handler) && match event {
                DbEvent::Arrived => res == ServerAction::Send(DbCall::ListStores),
                DbEvent::Listed(v) => res matches ServerAction::Answer(ServerAnswer::StoreList(l))
                    && is_merged_listing(old(handler).stores(), db_map_of(Some(v)), l@),
                _ => res matches ServerAction::Answer(ServerAnswer::StoreList(l))
                    && is_merged_listing(old(handler).stores(), db_map_of(None), l@),
            },
            ServerQuery::CreateStore(c) => match event {
                DbEvent::Arrived => *final(handler) == *old(handler) && (res matches ServerAction::Send(
                    DbCall::CreateStore(p),
                ) && p.store@ == c.store@ && p.dimension == embedding_size_of(
                    spec_from_ai_model(c.index_model),
                ) && views_of(p.create_predicates@) == (if c.store_original {
                    views_of(c.predicates@).push(reserved_meta_key())
                } else {
                    views_of(c.predicates@)
                }) && p.non_linear_indices@ == c.non_linear_indices@ && p.error_if_exists
                    == c.error_if_exists),
                DbEvent::Failed { message, code } => *final(handler) == *old(handler) && res
                    == ServerAction::Answer(ServerAnswer::DbError { message, code }),
                _ => {
                    let o = create_outcome(
                        old(handler).stores(),
                        old(handler).supported(),
                        c.store@,
                        c.query_model,
                        c.index_model,
                        c.error_if_exists,
                    );
                    &&& final(handler).stores() == create_effect(
                        old(handler).stores(),
                        old(handler).supported(),
                        c.store@,
                        c.query_model,
                        c.index_model,
                        c.error_if_exists,
                        c.store_original,
                    )
                    &&& final(handler).written() == (old(handler).written() || o is Created
                        || o is AlreadyPresent)
                    &&& if o is Created || o is AlreadyPresent {
                        res == ServerAction::Answer(ServerAnswer::Unit)
                    } else {
                        res matches ServerAction::Answer(ServerAnswer::ProxyError(e))
                            && create_result_matches(o, c.store@, c.query_model, c.index_model, Err(e))
                    }
                },
            },
            ServerQuery::DropStore(d) => {
                let present = old(handler).stores().dom().contains(d.store@);
                let drops_now = match event {
                    DbEvent::Arrived => !present,
                    DbEvent::Failed { .. } => false,
                    _ => true,
                };
                &&& (event is Arrived && present) ==> *final(handler) == *old(handler) && (res
                    matches ServerAction::Send(DbCall::DropStores { stores, error_if_not_exists })
                    && stores@.len() == 1 && stores@[0]@ == d.store@ && error_if_not_exists
                    == d.error_if_not_exists)
                &&& (event matches DbEvent::Failed { message, code }) ==> *final(handler)
                    == *old(handler) && res == ServerAction::Answer(
                    ServerAnswer::DbError { message: event->message, code: event->code },
                )
                &&& drops_now ==> {
                    &&& final(handler).stores() == old(handler).stores().remove(d.store@)
                    &&& final(handler).written() == (old(handler).written() || present)
                    &&& match drop_outcome(old(handler).stores(), d.store@, d.error_if_not_exists) {
                        DropOutcome::Dropped => res == ServerAction::Answer(ServerAnswer::Deleted(1)),
                        DropOutcome::Absent => res == ServerAction::Answer(ServerAnswer::Deleted(0)),
                        DropOutcome::NotFound => res matches ServerAction::Answer(
                            ServerAnswer::ProxyError(AIProxyError::StoreNotFound(n)),
                        ) && n@ == d.store@,
                    }
                }
            },
            ServerQuery::PurgeStores => match event {
                DbEvent::Arrived => *final(handler) == *old(handler) && (res matches ServerAction::Send(
                    DbCall::DropStores { stores, error_if_not_exists },
                ) && !error_if_not_exists && names_each_store(stores@, old(handler).stores().dom())),
                DbEvent::Failed { message, code } => *final(handler) == *old(handler) && res
                    == ServerAction::Answer(ServerAnswer::DbError { message, code }),
                _ => final(handler).stores().dom().len() == 0 && final(handler).written()
                    == old(handler).written() && res == ServerAction::Answer(
                    ServerAnswer::Deleted(old(handler).stores().dom().len() as u64),
                ),
            },
            ServerQuery::DelKey { store, keys } => *final(handler) == *old(handler) && match event {
                DbEvent::Arrived => {
                    let st = old(handler).stores();
                    &&& !st.dom().contains(store@) ==> (res matches ServerAction::Answer(
                        ServerAnswer::ProxyError(AIProxyError::StoreNotFound(n)),
                    ) && n@ == store@)
                    &&& st.dom().contains(store@) && !st[store@].store_original ==> res
                        == ServerAction::Answer(ServerAnswer::ProxyError(AIProxyError::DelKeyError))
                    &&& st.dom().contains(store@) && st[store@].store_original ==> if exists|i: int|
                        0 <= i < keys@.len() && (#[trigger] keys@[i])@ is None {
                        res matches ServerAction::Answer(
                            ServerAnswer::ProxyError(AIProxyError::InputNotSpecified(m)),
                        ) && m@ == "Store Input Value"@
                    } else {
                        res matches ServerAction::Send(DbCall::DelPred(c)) && c.key@ == reserved_meta_key()
                            && c.values@.len() == keys@.len() && forall|i: int|
                            0 <= i < keys@.len() ==> (#[trigger] c.values@[i])@ == keys@[i]@
                    }
                },
                DbEvent::Failed { message, code } => res == ServerAction::Answer(
                    ServerAnswer::DbError { message, code },
                ),
                _ => res == ServerAction::Answer(ServerAnswer::FromReply(ResponseKind::Del)),
            },
            ServerQuery::GetSimN { store } => *final(handler) == *old(handler) && match event {
                DbEvent::Arrived => if old(handler).stores().dom().contains(store@) {
                    res == ServerAction::EmbedAndSearch(old(handler).stores()[store@].query_model)
                } else {
                    res matches ServerAction::Answer(
                        ServerAnswer::ProxyError(AIProxyError::StoreNotFound(n)),
                    ) && n@ == store@
                },
                DbEvent::Failed { message, code } => res == ServerAction::Answer(
                    ServerAnswer::DbError { message, code },
                ),
                _ => res == ServerAction::Answer(ServerAnswer::FromReply(ResponseKind::GetSimN)),
            },
            ServerQuery::SetEntries { store, inputs, model_params } => *final(handler) == *old(handler)
                && match event {
                DbEvent::Arrived => {
                    let st = old(handler).stores();
                    let pairs = set_pairs(inputs@);
                    let params = param_views(model_params@);
                    ||| (res matches ServerAction::Answer(ServerAnswer::ProxyError(e))
                        && set_begin_result(st, store@, pairs, params, Err(e)))
                    ||| (res matches ServerAction::Send(DbCall::EmptySet) && set_begin_result(
                        st,
                        store@,
                        pairs,
                        params,
                        Ok(None),
                    ))
                    ||| (res matches ServerAction::EmbedAndSet(plan) && set_begin_result(
                        st,
                        store@,
                        pairs,
                        params,
                        Ok(Some(plan)),
                    ))
                },
                DbEvent::Failed { message, code } => res == ServerAction::Answer(
                    ServerAnswer::DbError { message, code },
                ),
                _ => res == ServerAction::Answer(ServerAnswer::FromReply(ResponseKind::Upsert)),
            },
            ServerQuery::Forward(q) => *final(handler) == *old(handler) && match event {
                DbEvent::Arrived => res == ServerAction::Send(DbCall::Request(spec_db_request(q))),
                DbEvent::Failed { message, code } => res == ServerAction::Answer(
                    ServerAnswer::DbError { message, code },
                ),
                _ => res == ServerAction::Answer(ServerAnswer::FromReply(spec_response_kind(q))),
            },
        },
{
    match query {
        ServerQuery::Ping => ServerAction::Answer(ServerAnswer::Pong),
        ServerQuery::InfoServer => ServerAction::Answer(ServerAnswer::InfoServer),
        ServerQuery::ListClients => ServerAction::Answer(ServerAnswer::ClientList),
        ServerQuery::ListStores => match event {
            DbEvent::Arrived => ServerAction::Send(DbCall::ListStores),
            DbEvent::Listed(v) => ServerAction::Answer(
                ServerAnswer::StoreList(list_stores_merged(handler, Some(v))),
            ),
            _ => ServerAction::Answer(ServerAnswer::StoreList(list_stores_merged(handler, None))),
        },
        ServerQuery::CreateStore(c) => match event {
            DbEvent::Arrived => ServerAction::Send(DbCall::CreateStore(create_store_db_params(c))),
            DbEvent::Failed { message, code } => ServerAction::Answer(ServerAnswer::DbError { message, code }),
            _ => {
                let r = handler.create_store(
                    crate::keyval::StoreName { value: c.store.clone() },
                    c.query_model,
                    c.index_model,
                    c.error_if_exists,
                    c.store_original,
                );
                match r {
                    Ok(()) => ServerAction::Answer(ServerAnswer::Unit),
                    Err(e) => ServerAction::Answer(ServerAnswer::ProxyError(e)),
                }
            },
        },
        ServerQuery::DropStore(d) => {
            let send_first = match &event {
                DbEvent::Arrived => handler.get(&crate::keyval::StoreName { value: d.store.clone() }).is_ok(),
                _ => false,
            };
            if send_first {
                ServerAction::Send(
                    DbCall::DropStores { stores: vec![d.store.clone()], error_if_not_exists: d.error_if_not_exists },
                )
            } else {
                match event {
                    DbEvent::Failed { message, code } => ServerAction::Answer(ServerAnswer::DbError { message, code }),
                    _ => {
                        match handler.drop_store(
                            crate::keyval::StoreName { value: d.store.clone() },
                            d.error_if_not_exists,
                        ) {
                            Ok(n) => ServerAction::Answer(ServerAnswer::Deleted(n as u64)),
                            Err(e) => ServerAction::Answer(ServerAnswer::ProxyError(e)),
                        }
                    },
                }
            }
        },
        ServerQuery::PurgeStores => match event {
            DbEvent::Arrived => ServerAction::Send(
                DbCall::DropStores { stores: store_names(handler), error_if_not_exists: false },
            ),
            DbEvent::Failed { message, code } => ServerAction::Answer(ServerAnswer::DbError { message, code }),
            _ => {
                let n = handler.purge_stores();
                ServerAction::Answer(ServerAnswer::Deleted(n as u64))
            },
        },
        ServerQuery::DelKey { store, keys } => match event {
            DbEvent::Arrived => match del_key_condition(handler, store, keys) {
                Ok(c) => ServerAction::Send(DbCall::DelPred(c)),
                Err(e) => ServerAction::Answer(ServerAnswer::ProxyError(e)),
            },
            DbEvent::Failed { message, code } => ServerAction::Answer(ServerAnswer::DbError { message, code }),
            _ => ServerAction::Answer(ServerAnswer::FromReply(ResponseKind::Del)),
        },
        ServerQuery::GetSimN { store } => match event {
            DbEvent::Arrived => match handler.get(&crate::keyval::StoreName { value: store.clone() }) {
                Ok(s) => ServerAction::EmbedAndSearch(s.query_model),
                Err(e) => ServerAction::Answer(ServerAnswer::ProxyError(e)),
            },
            DbEvent::Failed { message, code } => ServerAction::Answer(ServerAnswer::DbError { message, code }),
            _ => ServerAction::Answer(ServerAnswer::FromReply(ResponseKind::GetSimN)),
        },
        ServerQuery::SetEntries { store, inputs, model_params } => match event {
            DbEvent::Arrived => {
                let copied = copy_set_inputs(inputs);
                let params = model_params.duplicate();
                proof {
                    assert(param_views(params@) =~= param_views(model_params@));
                }
                match set_begin(handler, &crate::keyval::StoreName { value: store.clone() }, copied, params) {
                    Err(e) => ServerAction::Answer(ServerAnswer::ProxyError(e)),
                    Ok(None) => ServerAction::Send(DbCall::EmptySet),
                    Ok(Some(plan)) => ServerAction::EmbedAndSet(plan),
                }
            },
            DbEvent::Failed { message, code } => ServerAction::Answer(ServerAnswer::DbError { message, code }),
            _ => ServerAction::Answer(ServerAnswer::FromReply(ResponseKind::Upsert)),
        },
        ServerQuery::Forward(q) => match event {
            DbEvent::Arrived => ServerAction::Send(DbCall::Request(db_request(*q))),
            DbEvent::Failed { message, code } => ServerAction::Answer(ServerAnswer::DbError { message, code }),
            _ => ServerAction::Answer(ServerAnswer::FromReply(response_kind(*q))),
        },
    }
}

} // verus!
