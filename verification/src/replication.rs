//! The replicated state machine: commands agreed on by the cluster are applied
//! to the store handler. Each client's latest request is remembered with its
//! response, so a command delivered again is answered from memory and not
//! applied twice.
use vstd::prelude::*;
use crate::errors::AIProxyError;
use crate::keyed::StrMap;
use crate::keyval::{StoreInput, StoreName};
use crate::models::{AiModel, SupportedModels};
use crate::store::{
    AIStore, AIStoreHandler, CreateOutcome, DropOutcome, create_effect, create_outcome,
    create_result_matches, drop_outcome, drop_result_matches, stores_of_list,
};
use crate::table::{StoreEntry, no_stores};

verus! {

/// The parameters of a store creation.
#[derive(Debug)]
pub struct CreateStore {
    pub store: String,
    pub query_model: AiModel,
    pub index_model: AiModel,
    pub predicates: Vec<String>,
    pub non_linear_indices: Vec<u64>,
    pub error_if_exists: bool,
    pub store_original: bool,
}

/// The parameters of a store drop.
#[derive(Debug)]
pub struct DropStore {
    pub store: String,
    pub error_if_not_exists: bool,
}

/// The parameters of a deletion by original input.
#[derive(Debug)]
pub struct DelKey {
    pub store: String,
    pub keys: Vec<StoreInput>,
}

/// A command replicated through the log.
#[derive(Debug)]
pub enum AiCommand {
    CreateStore(CreateStore),
    DropStore(DropStore),
    PurgeStores,
    DelKey(DelKey),
    SetEntries,
    DelPred,
    CreatePredIndex,
    DropPredIndex,
    CreateNonLinearAlgorithmIndex,
    DropNonLinearAlgorithmIndex,
}

/// The kind of a response.
#[derive(Clone, Copy, Debug, PartialEq, Eq, Structural)]
pub enum AiResponseKind {
    Unit,
    Del,
}

/// A response to a replicated command.
#[derive(Clone, Copy, Debug, PartialEq, Eq, Structural)]
pub struct AiResponse {
    pub kind: AiResponseKind,
    /// The number of stores deleted; 0 for a `Unit` response.
    pub deleted_count: u64,
}

/// A command as sent by a client, with the client's request number.
#[derive(Debug)]
pub struct ClientWriteRequest {
    pub client_id: String,
    pub request_id: u64,
    pub command: AiCommand,
}

/// The answer to a client's request.
#[derive(Debug)]
pub struct ClientWriteResponse {
    pub response: AiResponse,
}

/// Why a command could not be applied.
#[derive(Debug)]
pub enum ApplyError {
    /// The store handler refused the command.
    Store(AIProxyError),
    /// The state machine does not apply commands of this kind.
    UnsupportedCommand,
}

/// The state that a snapshot of the state machine holds.
#[derive(Debug)]
pub struct AiSnapshot {
    pub stores: Vec<AIStore>,
    pub client_last: Vec<(String, u64, AiResponse)>,
}

/// The state machine that applies replicated commands to a store handler.
pub struct AiStateMachineHandler {
    store_handler: AIStoreHandler,
    client_last: StrMap<(u64, AiResponse)>,
}

/// The abstract state of the state machine.
pub struct SmState {
    pub stores: Map<Seq<char>, StoreEntry>,
    pub client_last: Map<Seq<char>, (u64, AiResponse)>,
}

/// The abstract value of a command.
pub enum CommandView {
    CreateStore {
        store: Seq<char>,
        query_model: AiModel,
        index_model: AiModel,
        error_if_exists: bool,
        store_original: bool,
    },
    DropStore { store: Seq<char>, error_if_not_exists: bool },
    PurgeStores,
    Unsupported,
}

/// The abstract outcome of applying a command.
pub enum ApplyOutcome {
    Answered(AiResponse),
    CreateFailed(CreateOutcome),
    DropFailed,
    Unsupported,
}

impl AiCommand {
    pub open spec fn spec_view(&self) -> CommandView {
        match self {
            AiCommand::CreateStore(c) => CommandView::CreateStore {
                store: c.store@,
                query_model: c.query_model,
                index_model: c.index_model,
                error_if_exists: c.error_if_exists,
                store_original: c.store_original,
            },
            AiCommand::DropStore(d) => CommandView::DropStore {
                store: d.store@,
                error_if_not_exists: d.error_if_not_exists,
            },
            AiCommand::PurgeStores => CommandView::PurgeStores,
            _ => CommandView::Unsupported,
        }
    }
}

/// A `Unit` response.
pub open spec fn unit_response() -> AiResponse {
    AiResponse { kind: AiResponseKind::Unit, deleted_count: 0 }
}

/// A `Del` response counting `n` deletions.
pub open spec fn del_response(n: nat) -> AiResponse {
    AiResponse { kind: AiResponseKind::Del, deleted_count: n as u64 }
}

/// Executes a command on the stores, without the client bookkeeping.
pub open spec fn execute_command(
    stores: Map<Seq<char>, StoreEntry>,
    supported: Seq<SupportedModels>,
    cmd: CommandView,
) -> (Map<Seq<char>, StoreEntry>, ApplyOutcome) {
    match cmd {
        CommandView::CreateStore { store, query_model, index_model, error_if_exists, store_original } => {
            let outcome = create_outcome(stores, supported, store, query_model, index_model, error_if_exists);
            match outcome {
                CreateOutcome::Created | CreateOutcome::AlreadyPresent => (
                    create_effect(stores, supported, store, query_model, index_model, error_if_exists, store_original),
                    ApplyOutcome::Answered(unit_response()),
                ),
                _ => (stores, ApplyOutcome::CreateFailed(outcome)),
            }
        },
        CommandView::DropStore { store, error_if_not_exists } => match drop_outcome(
            stores,
            store,
            error_if_not_exists,
        ) {
            DropOutcome::Dropped => (stores.remove(store), ApplyOutcome::Answered(del_response(1))),
            DropOutcome::Absent => (stores, ApplyOutcome::Answered(del_response(0))),
            DropOutcome::NotFound => (stores, ApplyOutcome::DropFailed),
        },
        CommandView::PurgeStores => (
            no_stores(),
            ApplyOutcome::Answered(del_response(stores.dom().len())),
        ),
        CommandView::Unsupported => (stores, ApplyOutcome::Unsupported),
    }
}

/// Applies a client's request: a request no newer than the client's latest is
/// answered with the latest response and changes nothing; otherwise the command
/// is executed and, when it succeeds, remembered as the client's latest.
pub open spec fn apply_spec(
    st: SmState,
    supported: Seq<SupportedModels>,
    client: Seq<char>,
    request_id: u64,
    cmd: CommandView,
) -> (SmState, ApplyOutcome) {
    if st.client_last.dom().contains(client) && st.client_last[client].0 >= request_id {
        (st, ApplyOutcome::Answered(st.client_last[client].1))
    } else {
        let (stores, outcome) = execute_command(st.stores, supported, cmd);
        match outcome {
            ApplyOutcome::Answered(r) => (
                SmState { stores, client_last: st.client_last.insert(client, (request_id, r)) },
                outcome,
            ),
            _ => (st, outcome),
        }
    }
}

/// Whether applying a request marks the stores as changed: a create that
/// succeeds, or a drop of a store that exists, unless the request is answered
/// from the client's latest response.
pub open spec fn apply_marks_written(
    st: SmState,
    client: Seq<char>,
    request_id: u64,
    cmd: CommandView,
    succeeded: bool,
) -> bool {
    if st.client_last.dom().contains(client) && st.client_last[client].0 >= request_id {
        false
    } else {
        match cmd {
            CommandView::CreateStore { .. } => succeeded,
            CommandView::DropStore { store, .. } => st.stores.dom().contains(store),
            _ => false,
        }
    }
}

/// The result of `apply` reports the abstract outcome.
pub open spec fn apply_result_matches(
    outcome: ApplyOutcome,
    cmd: CommandView,
    res: Result<ClientWriteResponse, ApplyError>,
) -> bool {
    match outcome {
        ApplyOutcome::Answered(r) => res matches Ok(w) && w.response == r,
        ApplyOutcome::CreateFailed(o) => match cmd {
            CommandView::CreateStore { store, query_model, index_model, .. } => res matches Err(
                ApplyError::Store(e),
            ) && create_result_matches(o, store, query_model, index_model, Err(e)),
            _ => false,
        },
        ApplyOutcome::DropFailed => match cmd {
            CommandView::DropStore { store, error_if_not_exists } => res matches Err(
                ApplyError::Store(e),
            ) && drop_result_matches(DropOutcome::NotFound, store, Err(e)),
            _ => false,
        },
        ApplyOutcome::Unsupported => res matches Err(ApplyError::UnsupportedCommand),
    }
}

impl AiStateMachineHandler {
    /// The abstract state.
    pub closed spec fn state(&self) -> SmState {
        SmState { stores: self.store_handler.stores(), client_last: self.client_last@ }
    }

    /// The models the store handler supports.
    pub closed spec fn supported(&self) -> Seq<SupportedModels> {
        self.store_handler.supported()
    }

    pub closed spec fn wf(&self) -> bool {
        self.store_handler.wf() && self.client_last.wf()
    }

    /// Whether the store handler's change flag is set.
    pub closed spec fn written(&self) -> bool {
        self.store_handler.written()
    }

    /// A state machine over the given store handler, with no client history.
    pub fn new(store_handler: AIStoreHandler) -> (res: Self)
        requires
            store_handler.wf(),
        ensures
            res.wf(),
            res.state().stores == store_handler.stores(),
            res.state().client_last == Map::<Seq<char>, (u64, AiResponse)>::empty(),
            res.supported() == store_handler.supported(),
            res.written() == store_handler.written(),
    {
        AiStateMachineHandler { store_handler, client_last: StrMap::new() }
    }

    /// The store handler the commands are applied to.
    pub fn store_handler(&self) -> (res: &AIStoreHandler)
        ensures
            res.stores() == self.state().stores,
            res.supported() == self.supported(),
            res.written() == self.written(),
    {
        &self.store_handler
    }

    /// Applies one replicated request.
    pub fn apply(&mut self, data: &ClientWriteRequest) -> (res: Result<ClientWriteResponse, ApplyError>)
        requires
            old(self).wf(),
        ensures
            final(self).wf(),
            final(self).supported() == old(self).supported(),
            final(self).state() == apply_spec(
                old(self).state(),
                old(self).supported(),
                data.client_id@,
                data.request_id,
                data.command.spec_view(),
            ).0,
            apply_result_matches(
                apply_spec(
                    old(self).state(),
                    old(self).supported(),
                    data.client_id@,
                    data.request_id,
                    data.command.spec_view(),
                ).1,
                data.command.spec_view(),
                res,
            ),
            final(self).written() == (old(self).written() || apply_marks_written(
                old(self).state(),
                data.client_id@,
                data.request_id,
                data.command.spec_view(),
                res is Ok,
            )),
    {
        if let Some(last) = self.client_last.get(data.client_id.as_str()) {
            if last.0 >= data.request_id {
                return Ok(ClientWriteResponse { response: last.1 });
            }
        }
        let response = match &data.command {
            AiCommand::CreateStore(req) => {
                let r = self.store_handler.create_store(
                    StoreName { value: req.store.clone() },
                    req.query_model,
                    req.index_model,
                    req.error_if_exists,
                    req.store_original,
                );
                match r {
                    Ok(()) => AiResponse { kind: AiResponseKind::Unit, deleted_count: 0 },
                    Err(e) => {
                        return Err(ApplyError::Store(e));
                    },
                }
            },
            AiCommand::DropStore(req) => {
                let ghost s0 = self.store_handler.stores();
                proof {
                    if !s0.dom().contains(req.store@) {
                        assert(s0.remove(req.store@) =~= s0);
                    }
                }
                let r = self.store_handler.drop_store(
                    StoreName { value: req.store.clone() },
                    req.error_if_not_exists,
                );
                match r {
                    Ok(deleted) => AiResponse { kind: AiResponseKind::Del, deleted_count: deleted as u64 },
                    Err(e) => {
                        return Err(ApplyError::Store(e));
                    },
                }
            },
            AiCommand::PurgeStores => {
                let deleted = self.store_handler.purge_stores();
                AiResponse { kind: AiResponseKind::Del, deleted_count: deleted as u64 }
            },
            _ => {
                return Err(ApplyError::UnsupportedCommand);
            },
        };
        self.client_last.insert(data.client_id.clone(), (data.request_id, response));
        Ok(ClientWriteResponse { response })
    }

    /// A snapshot of the state: the stores and each client's latest request and response.
    pub fn get_snapshot(&self) -> (res: AiSnapshot)
        requires
            self.wf(),
        ensures
            snapshot_state(res) == self.state(),
    {
        let stores = self.store_handler.get_snapshot();
        let entries = self.client_last.entries();
        proof {
            self.client_last.lemma_entries();
        }
        let mut clients: Vec<(String, u64, AiResponse)> = Vec::new();
        let mut i: usize = 0;
        while i < entries.len()
            invariant
                0 <= i <= entries@.len(),
                entries@ == self.client_last.entry_seq(),
                clients@.len() == i,
                forall|j: int|
                    0 <= j < i ==> (#[trigger] clients@[j]).0@ == entries@[j].0@ && clients@[j].1
                        == entries@[j].1.0 && clients@[j].2 == entries@[j].1.1,
            decreases entries@.len() - i,
        {
            let (name, last) = &entries[i];
            clients.push((name.clone(), last.0, last.1));
            i = i + 1;
        }
        let res = AiSnapshot { stores, client_last: clients };
        proof {
            lemma_client_list_map(clients@, entries@);
        }
        res
    }

    /// Replaces the state with that of a snapshot.
    pub fn restore_snapshot(&mut self, snapshot: AiSnapshot)
        requires
            old(self).wf(),
        ensures
            final(self).wf(),
            final(self).state() == snapshot_state(snapshot),
            final(self).supported() == old(self).supported(),
            final(self).written() == old(self).written(),
    {
        self.store_handler.use_snapshot(snapshot.stores);
        let mut table: StrMap<(u64, AiResponse)> = StrMap::new();
        let ghost all = snapshot.client_last@;
        let total = snapshot.client_last.len();
        let mut rest = crate::seqs::reversed(snapshot.client_last);
        let mut n: usize = 0;
        while rest.len() > 0
            invariant
                n + rest@.len() == all.len(),
                total == all.len(),
                forall|i: int| 0 <= i < rest@.len() ==> #[trigger] rest@[i] == all[all.len() - 1 - i],
                table.wf(),
                table@ == client_list_map(all.subrange(0, n as int)),
            decreases rest@.len(),
        {
            let (name, id, resp) = rest.pop().unwrap();
            proof {
                let s = all.subrange(0, n as int + 1);
                assert(s.drop_last() =~= all.subrange(0, n as int));
            }
            table.insert(name, (id, resp));
            n = n + 1;
        }
        proof {
            assert(all.subrange(0, all.len() as int) =~= all);
        }
        self.client_last = table;
    }
}

/// The client table that a list of client records stands for; a later record
/// of a client replaces an earlier one.
pub open spec fn client_list_map(s: Seq<(String, u64, AiResponse)>) -> Map<Seq<char>, (u64, AiResponse)>
    decreases s.len(),
{
    if s.len() == 0 {
        Map::empty()
    } else {
        client_list_map(s.drop_last()).insert(s.last().0@, (s.last().1, s.last().2))
    }
}

/// The state a snapshot holds.
pub open spec fn snapshot_state(snap: AiSnapshot) -> SmState {
    SmState { stores: stores_of_list(snap.stores@), client_last: client_list_map(snap.client_last@) }
}

proof fn lemma_client_list_map(c: Seq<(String, u64, AiResponse)>, e: Seq<(String, (u64, AiResponse))>)
    requires
        c.len() == e.len(),
        forall|j: int|
            0 <= j < c.len() ==> (#[trigger] c[j]).0@ == e[j].0@ && c[j].1 == e[j].1.0 && c[j].2
                == e[j].1.1,
    ensures
        client_list_map(c) == crate::keyed::entries_map(e),
    decreases c.len(),
{
    if c.len() > 0 {
        lemma_client_list_map(c.drop_last(), e.drop_last());
        assert(c.last() == c[c.len() - 1]);
    }
}

/// A request that was answered, delivered again, is answered with the same
/// response and changes nothing.
pub proof fn law_replayed_request_is_answered_from_memory(
    st: SmState,
    supported: Seq<SupportedModels>,
    client: Seq<char>,
    request_id: u64,
    cmd: CommandView,
)
    ensures
        apply_spec(st, supported, client, request_id, cmd).1 matches ApplyOutcome::Answered(r) ==> apply_spec(
            apply_spec(st, supported, client, request_id, cmd).0,
            supported,
            client,
            request_id,
            cmd,
        ) == (apply_spec(st, supported, client, request_id, cmd).0, ApplyOutcome::Answered(r)),
{
}

/// Once a client's request is answered, every request of that client with a
/// number no greater is answered with that response, whatever its command,
/// and changes nothing.
pub proof fn law_older_requests_do_not_apply(
    st: SmState,
    supported: Seq<SupportedModels>,
    client: Seq<char>,
    request_id: u64,
    cmd: CommandView,
    older_id: u64,
    other_cmd: CommandView,
)
    requires
        older_id <= request_id,
    ensures
        apply_spec(st, supported, client, request_id, cmd).1 matches ApplyOutcome::Answered(r) ==> apply_spec(
            apply_spec(st, supported, client, request_id, cmd).0,
            supported,
            client,
            older_id,
            other_cmd,
        ) == (apply_spec(st, supported, client, request_id, cmd).0, ApplyOutcome::Answered(r)),
{
}

/// A command that fails, or is not supported, leaves the state as it was.
pub proof fn law_failed_command_changes_nothing(
    st: SmState,
    supported: Seq<SupportedModels>,
    client: Seq<char>,
    request_id: u64,
    cmd: CommandView,
)
    ensures
        !(apply_spec(st, supported, client, request_id, cmd).1 is Answered) ==> apply_spec(
            st,
            supported,
            client,
            request_id,
            cmd,
        ).0 == st,
        cmd == CommandView::Unsupported && !(st.client_last.dom().contains(client)
            && st.client_last[client].0 >= request_id) ==> apply_spec(
            st,
            supported,
            client,
            request_id,
            cmd,
        ) == (st, ApplyOutcome::Unsupported),
{
}

/// Purging drops every store and counts them; creating a new store and then
/// dropping it gives back the stores there were; creating a store a second
/// time changes nothing more.
pub proof fn law_store_commands(
    stores: Map<Seq<char>, StoreEntry>,
    supported: Seq<SupportedModels>,
    name: Seq<char>,
    q: AiModel,
    i: AiModel,
    error_if_exists: bool,
    store_original: bool,
)
    ensures
        execute_command(stores, supported, CommandView::PurgeStores) == (
            no_stores(),
            ApplyOutcome::Answered(del_response(stores.dom().len())),
        ),
        create_outcome(stores, supported, name, q, i, error_if_exists) == CreateOutcome::Created
            ==> execute_command(
            create_effect(stores, supported, name, q, i, error_if_exists, store_original),
            supported,
            CommandView::DropStore { store: name, error_if_not_exists: true },
        ) == (stores, ApplyOutcome::Answered(del_response(1))),
        ({
            let once = create_effect(stores, supported, name, q, i, error_if_exists, store_original);
            create_effect(once, supported, name, q, i, error_if_exists, store_original) == once
        }),
{
    if create_outcome(stores, supported, name, q, i, error_if_exists) == CreateOutcome::Created {
        assert(stores.insert(name, crate::store::entry_of(q, i, store_original)).remove(name) =~= stores);
    }
}

} // verus!
