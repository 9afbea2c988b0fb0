//! Plugins: manifests and their permissions, the preinstalled set, and the access checks
//! of the integration layer (CIL) that stand between a plugin and the network's data.
use vstd::prelude::*;
use vstd::utf8::{decode_utf8, valid_utf8};
use crate::entropy::unix_now;
use crate::text::{owned, str_eq};

verus! {

/// Whether a plugin runs.
#[derive(Debug, Clone, Copy, PartialEq, Eq, Structural)]
pub enum PluginState {
    Enabled,
    Disabled,
}

impl PluginState {
    /// `enabled` or `disabled`.
    pub fn to_string(&self) -> (s: String)
        ensures
            *self == PluginState::Enabled ==> s@ == "enabled"@,
            *self == PluginState::Disabled ==> s@ == "disabled"@,
    {
        match self {
            PluginState::Enabled => owned("enabled"),
            PluginState::Disabled => owned("disabled"),
        }
    }

    /// Parses `enabled` or `disabled`.
    pub fn from_str(s: &str) -> (r: Result<PluginState, String>)
        ensures
            s@ == "enabled"@ <==> r == Ok::<PluginState, String>(PluginState::Enabled),
            s@ == "disabled"@ <==> r == Ok::<PluginState, String>(PluginState::Disabled),
    {
        proof {
            reveal_strlit("enabled");
            reveal_strlit("disabled");
            assert("enabled"@[0] != "disabled"@[0]);
        }
        if str_eq(s, "enabled") {
            Ok(PluginState::Enabled)
        } else if str_eq(s, "disabled") {
            Ok(PluginState::Disabled)
        } else {
            Err(owned("unknown plugin state"))
        }
    }
}

/// What a plugin may read or write.
#[derive(Debug, Clone, Copy, PartialEq, Eq, Structural)]
pub enum PluginPermission {
    ReadMembers,
    ReadMessages,
    WriteMessages,
    ReadGovernance,
    WriteGovernance,
    ReadDirectory,
    WriteDirectory,
    ReadConnections,
    ReadAgenda,
    WriteAgenda,
}

/// The displayed name of a permission.
pub open spec fn permission_text(p: PluginPermission) -> Seq<char> {
    match p {
        PluginPermission::ReadMembers => "read:members"@,
        PluginPermission::ReadMessages => "read:messages"@,
        PluginPermission::WriteMessages => "write:messages"@,
        PluginPermission::ReadGovernance => "read:governance"@,
        PluginPermission::WriteGovernance => "write:governance"@,
        PluginPermission::ReadDirectory => "read:directory"@,
        PluginPermission::WriteDirectory => "write:directory"@,
        PluginPermission::ReadConnections => "read:connections"@,
        PluginPermission::ReadAgenda => "read:agenda"@,
        PluginPermission::WriteAgenda => "write:agenda"@,
    }
}

impl PluginPermission {
    /// `read:members`, `write:messages`, …
    pub fn to_string(&self) -> (s: String)
        ensures
            s@ == permission_text(*self),
    {
        match self {
            PluginPermission::ReadMembers => owned("read:members"),
            PluginPermission::ReadMessages => owned("read:messages"),
            PluginPermission::WriteMessages => owned("write:messages"),
            PluginPermission::ReadGovernance => owned("read:governance"),
            PluginPermission::WriteGovernance => owned("write:governance"),
            PluginPermission::ReadDirectory => owned("read:directory"),
            PluginPermission::WriteDirectory => owned("write:directory"),
            PluginPermission::ReadConnections => owned("read:connections"),
            PluginPermission::ReadAgenda => owned("read:agenda"),
            PluginPermission::WriteAgenda => owned("write:agenda"),
        }
    }
}

/// A plugin's description.
#[derive(Debug)]
pub struct PluginManifest {
    pub id: String,
    pub name: String,
    pub version: String,
    pub description: String,
    pub author: String,
    pub permissions: Vec<PluginPermission>,
    /// System plugins are enabled when installed.
    pub is_system: bool,
}

/// An installed plugin.
#[derive(Debug)]
pub struct PluginRecord {
    pub manifest: PluginManifest,
    pub state: PluginState,
    pub installed_at: u64,
}

impl PluginRecord {
    /// Installs a plugin at `now`: enabled if it is a system plugin, else disabled.
    pub fn new_at(manifest: PluginManifest, now: u64) -> (r: PluginRecord)
        ensures
            r.state == (if manifest.is_system { PluginState::Enabled } else { PluginState::Disabled }),
            r.manifest == manifest,
            r.installed_at == now,
    {
        let state = if manifest.is_system {
            PluginState::Enabled
        } else {
            PluginState::Disabled
        };
        PluginRecord { state, manifest, installed_at: now }
    }

    /// Installs a plugin now: enabled if it is a system plugin, else disabled.
    pub fn new(manifest: PluginManifest) -> (r: PluginRecord)
        ensures
            r.state == (if manifest.is_system { PluginState::Enabled } else { PluginState::Disabled }),
            r.manifest == manifest,
    {
        Self::new_at(manifest, unix_now())
    }

    /// Installs a plugin now, enabled.
    pub fn new_enabled(manifest: PluginManifest) -> (r: PluginRecord)
        ensures
            r.state == PluginState::Enabled,
            r.manifest == manifest,
    {
        PluginRecord { state: PluginState::Enabled, manifest, installed_at: unix_now() }
    }
}

fn manifest(
    id: &str,
    name: &str,
    description: &str,
    permissions: Vec<PluginPermission>,
    is_system: bool,
) -> (m: PluginManifest)
    ensures
        m.id@ == id@,
        m.name@ == name@,
        m.version@ == "1.0.0"@,
        m.description@ == description@,
        m.author@ == "Civium"@,
        m.permissions == permissions,
        m.is_system == is_system,
{
    PluginManifest {
        id: owned(id),
        name: owned(name),
        version: owned("1.0.0"),
        description: owned(description),
        author: owned("Civium"),
        permissions,
        is_system,
    }
}

/// The plugins shipped with Civium, each with whether it starts enabled: governance and
/// the integration layer (system plugins), messaging, directory and agenda.
pub fn preinstalled_plugins() -> (v: Vec<(PluginManifest, bool)>)
    ensures
        v@.len() == 5,
        v@[0].0.id@ == "civium.gouvernance"@ && v@[0].0.is_system && v@[0].1
            && v@[0].0.permissions@ == seq![PluginPermission::ReadGovernance, PluginPermission::WriteGovernance, PluginPermission::ReadMembers],
        v@[1].0.id@ == "civium.cil"@ && v@[1].0.is_system && v@[1].1 && v@[1].0.permissions@.len() == 0,
        v@[2].0.id@ == "civium.messagerie"@ && !v@[2].0.is_system && v@[2].1
            && v@[2].0.permissions@ == seq![PluginPermission::ReadMessages, PluginPermission::WriteMessages, PluginPermission::ReadMembers],
        v@[3].0.id@ == "civium.annuaire"@ && !v@[3].0.is_system && v@[3].1
            && v@[3].0.permissions@ == seq![PluginPermission::ReadDirectory, PluginPermission::WriteDirectory, PluginPermission::ReadMembers],
        v@[4].0.id@ == "civium.agenda"@ && !v@[4].0.is_system && v@[4].1
            && v@[4].0.permissions@ == seq![PluginPermission::ReadAgenda, PluginPermission::WriteAgenda, PluginPermission::ReadMembers],
        forall|i: int| 0 <= i < 5 ==> (#[trigger] v@[i]).0.version@ == "1.0.0"@ && v@[i].0.author@ == "Civium"@,
        v@[0].0.name@ == "Gouvernance"@ && v@[0].0.description@ == "Propositions, votes, délégations, garde-fou majoritaire."@,
        v@[1].0.name@ == "CIL (Civium Integration Layer)"@
            && v@[1].0.description@ == "Couche de contrôle d'accès et d'application des APCs."@,
        v@[2].0.name@ == "Messagerie"@ && v@[2].0.description@ == "Fil de discussion chiffré et messages directs."@,
        v@[3].0.name@ == "Annuaire"@ && v@[3].0.description@ == "Annuaire de réseaux, membres et services."@,
        v@[4].0.name@ == "Agenda"@ && v@[4].0.description@ == "Calendrier partagé — événements, lieux, récurrences."@,
{
    let mut v: Vec<(PluginManifest, bool)> = Vec::new();
    let mut p0: Vec<PluginPermission> = Vec::new();
    p0.push(PluginPermission::ReadGovernance);
    p0.push(PluginPermission::WriteGovernance);
    p0.push(PluginPermission::ReadMembers);
    v.push((manifest("civium.gouvernance", "Gouvernance", "Propositions, votes, délégations, garde-fou majoritaire.", p0, true), true));
    v.push((manifest("civium.cil", "CIL (Civium Integration Layer)", "Couche de contrôle d'accès et d'application des APCs.", Vec::new(), true), true));
    let mut p2: Vec<PluginPermission> = Vec::new();
    p2.push(PluginPermission::ReadMessages);
    p2.push(PluginPermission::WriteMessages);
    p2.push(PluginPermission::ReadMembers);
    v.push((manifest("civium.messagerie", "Messagerie", "Fil de discussion chiffré et messages directs.", p2, false), true));
    let mut p3: Vec<PluginPermission> = Vec::new();
    p3.push(PluginPermission::ReadDirectory);
    p3.push(PluginPermission::WriteDirectory);
    p3.push(PluginPermission::ReadMembers);
    v.push((manifest("civium.annuaire", "Annuaire", "Annuaire de réseaux, membres et services.", p3, false), true));
    let mut p4: Vec<PluginPermission> = Vec::new();
    p4.push(PluginPermission::ReadAgenda);
    p4.push(PluginPermission::WriteAgenda);
    p4.push(PluginPermission::ReadMembers);
    v.push((manifest("civium.agenda", "Agenda", "Calendrier partagé — événements, lieux, récurrences.", p4, false), true));
    assert(v@[0].0.permissions@ =~= seq![PluginPermission::ReadGovernance, PluginPermission::WriteGovernance, PluginPermission::ReadMembers]);
    assert(v@[2].0.permissions@ =~= seq![PluginPermission::ReadMessages, PluginPermission::WriteMessages, PluginPermission::ReadMembers]);
    assert(v@[3].0.permissions@ =~= seq![PluginPermission::ReadDirectory, PluginPermission::WriteDirectory, PluginPermission::ReadMembers]);
    assert(v@[4].0.permissions@ =~= seq![PluginPermission::ReadAgenda, PluginPermission::WriteAgenda, PluginPermission::ReadMembers]);
    v
}

/// An action that a plugin asks the integration layer to perform.
#[derive(Debug, Clone, Copy, PartialEq, Eq, Structural)]
pub enum CilAction {
    QueryMembers,
    QueryMessages,
    PostMessage,
    QueryProposals,
    CreateProposal,
    CastVote,
    QueryDirectory,
    PublishDirectory,
    QueryConnections,
    QueryAgenda,
    WriteAgenda,
}

/// The permission an action needs.
pub open spec fn action_permission(a: CilAction) -> PluginPermission {
    match a {
        CilAction::QueryMembers => PluginPermission::ReadMembers,
        CilAction::QueryMessages => PluginPermission::ReadMessages,
        CilAction::PostMessage => PluginPermission::WriteMessages,
        CilAction::QueryProposals => PluginPermission::ReadGovernance,
        CilAction::CreateProposal => PluginPermission::WriteGovernance,
        CilAction::CastVote => PluginPermission::WriteGovernance,
        CilAction::QueryDirectory => PluginPermission::ReadDirectory,
        CilAction::PublishDirectory => PluginPermission::WriteDirectory,
        CilAction::QueryConnections => PluginPermission::ReadConnections,
        CilAction::QueryAgenda => PluginPermission::ReadAgenda,
        CilAction::WriteAgenda => PluginPermission::WriteAgenda,
    }
}

impl CilAction {
    /// The permission this action needs.
    pub fn required_permission(&self) -> (p: PluginPermission)
        ensures
            p == action_permission(*self),
    {
        match self {
            CilAction::QueryMembers => PluginPermission::ReadMembers,
            CilAction::QueryMessages => PluginPermission::ReadMessages,
            CilAction::PostMessage => PluginPermission::WriteMessages,
            CilAction::QueryProposals => PluginPermission::ReadGovernance,
            CilAction::CreateProposal => PluginPermission::WriteGovernance,
            CilAction::CastVote => PluginPermission::WriteGovernance,
            CilAction::QueryDirectory => PluginPermission::ReadDirectory,
            CilAction::PublishDirectory => PluginPermission::WriteDirectory,
            CilAction::QueryConnections => PluginPermission::ReadConnections,
            CilAction::QueryAgenda => PluginPermission::ReadAgenda,
            CilAction::WriteAgenda => PluginPermission::WriteAgenda,
        }
    }
}

/// Whether `p` is among `perms`.
pub fn has_permission(perms: &Vec<PluginPermission>, p: PluginPermission) -> (b: bool)
    ensures
        b == perms@.contains(p),
{
    let mut i: usize = 0;
    while i < perms.len()
        invariant
            i <= perms.len(),
            forall|j: int| 0 <= j < i ==> perms@[j] != p,
        decreases perms.len() - i,
    {
        if perms[i] == p {
            assert(perms@[i as int] == p);
            return true;
        }
        i = i + 1;
    }
    false
}

/// A plugin may perform an action only when it is enabled and holds the action's
/// permission; the error says which of the two failed.
pub fn check_cil(plugin: &PluginRecord, action: &CilAction) -> (r: Result<(), String>)
    ensures
        r is Ok <==> (plugin.state == PluginState::Enabled && plugin.manifest.permissions@.contains(action_permission(*action))),
{
    if plugin.state != PluginState::Enabled {
        return Err(owned("plugin is not enabled"));
    }
    let required = action.required_permission();
    if has_permission(&plugin.manifest.permissions, required) {
        Ok(())
    } else {
        Err(owned("plugin lacks the permission for this action"))
    }
}

/// The permission that the sandbox requires for the action named `action`, if it knows
/// that name.
pub open spec fn named_action_permission(action: Seq<char>) -> Option<PluginPermission> {
    if action == "query_members"@ {
        Some(PluginPermission::ReadMembers)
    } else if action == "query_messages"@ {
        Some(PluginPermission::ReadMessages)
    } else if action == "post_message"@ {
        Some(PluginPermission::WriteMessages)
    } else if action == "query_proposals"@ {
        Some(PluginPermission::ReadGovernance)
    } else if action == "create_proposal"@ {
        Some(PluginPermission::WriteGovernance)
    } else if action == "cast_vote"@ {
        Some(PluginPermission::WriteGovernance)
    } else if action == "query_directory"@ {
        Some(PluginPermission::ReadDirectory)
    } else if action == "publish_directory"@ {
        Some(PluginPermission::WriteDirectory)
    } else if action == "query_connections"@ {
        Some(PluginPermission::ReadConnections)
    } else if action == "query_agenda"@ {
        Some(PluginPermission::ReadAgenda)
    } else if action == "write_agenda"@ {
        Some(PluginPermission::WriteAgenda)
    } else {
        None
    }
}

/// The permission needed by the action named `action` (`None` for an unknown name).
pub fn required_permission(action: &str) -> (r: Option<PluginPermission>)
    ensures
        r == named_action_permission(action@),
{
    if str_eq(action, "query_members") {
        Some(PluginPermission::ReadMembers)
    } else if str_eq(action, "query_messages") {
        Some(PluginPermission::ReadMessages)
    } else if str_eq(action, "post_message") {
        Some(PluginPermission::WriteMessages)
    } else if str_eq(action, "query_proposals") {
        Some(PluginPermission::ReadGovernance)
    } else if str_eq(action, "create_proposal") {
        Some(PluginPermission::WriteGovernance)
    } else if str_eq(action, "cast_vote") {
        Some(PluginPermission::WriteGovernance)
    } else if str_eq(action, "query_directory") {
        Some(PluginPermission::ReadDirectory)
    } else if str_eq(action, "publish_directory") {
        Some(PluginPermission::WriteDirectory)
    } else if str_eq(action, "query_connections") {
        Some(PluginPermission::ReadConnections)
    } else if str_eq(action, "query_agenda") {
        Some(PluginPermission::ReadAgenda)
    } else if str_eq(action, "write_agenda") {
        Some(PluginPermission::WriteAgenda)
    } else {
        None
    }
}

/// `std::str::from_utf8`, as an owned string: the text of `bytes` when they are valid
/// UTF-8.
#[verifier::external_body]
fn utf8_text(bytes: &[u8]) -> (r: Option<String>)
    ensures
        r is Some <==> valid_utf8(bytes@),
        r matches Some(s) ==> s@ == decode_utf8(bytes@),
{
    match std::str::from_utf8(bytes) {
        Ok(s) => Some(s.to_string()),
        Err(_) => None,
    }
}

/// The text that a plugin placed in its memory at `ptr` for `len` bytes: an error when
/// the range is out of bounds or the bytes are not UTF-8.
pub fn read_str(data: &[u8], ptr: usize, len: usize) -> (r: Result<String, String>)
    ensures
        r is Ok <==> (ptr + len <= data@.len() && valid_utf8(data@.subrange(ptr as int, ptr + len))),
        r matches Ok(s) ==> s@ == decode_utf8(data@.subrange(ptr as int, ptr + len)),
{
    if ptr > data.len() || len > data.len() - ptr {
        return Err(owned("WASM memory access out of bounds"));
    }
    let slice = vstd::slice::slice_subrange(data, ptr, ptr + len);
    match utf8_text(slice) {
        None => Err(owned("invalid UTF-8 from plugin")),
        Some(s) => Ok(s),
    }
}

/// The outcome of a plugin's call into the integration layer, before the action runs.
pub enum CilGate {
    /// The action and its parameter, read from the plugin's memory, are allowed.
    Allowed { action: String, param: String },
    /// The call is refused with this code: -2 unreadable action, -3 unreadable
    /// parameter, -10 permission denied.
    Refused(i32),
}

/// Reads the action name and its parameter from the plugin's memory and checks the
/// plugin's permission: -2 when the action cannot be read, -3 when the parameter cannot,
/// -10 when the action is unknown or not permitted.
pub fn cil_gate(
    data: &[u8],
    action_ptr: usize,
    action_len: usize,
    param_ptr: usize,
    param_len: usize,
    permissions: &Vec<PluginPermission>,
) -> (g: CilGate)
    ensures
        !(action_ptr + action_len <= data@.len() && valid_utf8(data@.subrange(action_ptr as int, action_ptr + action_len)))
            ==> (g matches CilGate::Refused(c) && c == -2),
        (action_ptr + action_len <= data@.len() && valid_utf8(data@.subrange(action_ptr as int, action_ptr + action_len)))
            && !(param_ptr + param_len <= data@.len() && valid_utf8(data@.subrange(param_ptr as int, param_ptr + param_len)))
            ==> (g matches CilGate::Refused(c) && c == -3),
        g matches CilGate::Allowed { action, param } ==> {
            &&& action@ == decode_utf8(data@.subrange(action_ptr as int, action_ptr + action_len))
            &&& param@ == decode_utf8(data@.subrange(param_ptr as int, param_ptr + param_len))
            &&& named_action_permission(action@) matches Some(p) && permissions@.contains(p)
        },
        (g matches CilGate::Refused(c) && c == -10) ==> (named_action_permission(decode_utf8(data@.subrange(action_ptr as int, action_ptr + action_len))) matches Some(p)
            ==> !permissions@.contains(p)),
        (action_ptr + action_len <= data@.len() && valid_utf8(data@.subrange(action_ptr as int, action_ptr + action_len)))
            && (param_ptr + param_len <= data@.len() && valid_utf8(data@.subrange(param_ptr as int, param_ptr + param_len)))
            ==> (g is Allowed || (g matches CilGate::Refused(c) && c == -10)),
{
    let action = match read_str(data, action_ptr, action_len) {
        Ok(s) => s,
        Err(_) => return CilGate::Refused(-2),
    };
    let param = match read_str(data, param_ptr, param_len) {
        Ok(s) => s,
        Err(_) => return CilGate::Refused(-3),
    };
    let allowed = match required_permission(action.as_str()) {
        Some(p) => has_permission(permissions, p),
        None => false,
    };
    if allowed {
        CilGate::Allowed { action, param }
    } else {
        CilGate::Refused(-10)
    }
}

/// The code returned to the plugin for a result of `result_len` bytes and a buffer of
/// `out_max` bytes: the length, or -20 when it does not fit.
pub fn response_code(result_len: usize, out_max: i32) -> (c: i32)
    requires
        result_len <= i32::MAX,
    ensures
        (out_max < 0 || result_len > out_max) ==> c == -20,
        (out_max >= 0 && result_len <= out_max) ==> c == result_len,
{
    if out_max < 0 || result_len > out_max as usize {
        -20
    } else {
        result_len as i32
    }
}

/// The position and length of a plugin's response, packed in one 64-bit value (high
/// half: position, low half: length).
pub fn unpack_response(packed: i64) -> (r: (u64, u64))
    ensures
        r.0 == (packed as u64) / 0x1_0000_0000,
        r.1 == (packed as u64) % 0x1_0000_0000,
{
    let p: u64 = packed as u64;
    let hi: u64 = (p >> 32u64) & 0xFFFF_FFFFu64;
    let lo: u64 = p & 0xFFFF_FFFFu64;
    assert(hi == p / 0x1_0000_0000) by (bit_vector)
        requires
            hi == (p >> 32u64) & 0xFFFF_FFFFu64,
    ;
    assert(lo == p % 0x1_0000_0000) by (bit_vector)
        requires
            lo == p & 0xFFFF_FFFFu64,
    ;
    (hi, lo)
}

/// The name under which a plugin asks for an action from its sandbox.
pub open spec fn action_name(a: CilAction) -> Seq<char> {
    match a {
        CilAction::QueryMembers => "query_members"@,
        CilAction::QueryMessages => "query_messages"@,
        CilAction::PostMessage => "post_message"@,
        CilAction::QueryProposals => "query_proposals"@,
        CilAction::CreateProposal => "create_proposal"@,
        CilAction::CastVote => "cast_vote"@,
        CilAction::QueryDirectory => "query_directory"@,
        CilAction::PublishDirectory => "publish_directory"@,
        CilAction::QueryConnections => "query_connections"@,
        CilAction::QueryAgenda => "query_agenda"@,
        CilAction::WriteAgenda => "write_agenda"@,
    }
}

/// The action changes data (posts, creates, votes, publishes, writes) rather than
/// reading it.
pub open spec fn changes_data(a: CilAction) -> bool {
    a is PostMessage || a is CreateProposal || a is CastVote || a is PublishDirectory || a is WriteAgenda
}

/// The permission grants writing.
pub open spec fn write_permission(p: PluginPermission) -> bool {
    p is WriteMessages || p is WriteGovernance || p is WriteDirectory || p is WriteAgenda
}

/// The integration layer and the sandbox agree on what every action needs: an action
/// asked for by its name needs the same permission as the action itself, and an action
/// needs a write permission exactly when it changes data (casting a vote needs
/// `write:governance`, not a read permission).
pub proof fn lemma_action_permission_law(a: CilAction)
    ensures
        named_action_permission(action_name(a)) == Some(action_permission(a)),
        write_permission(action_permission(a)) <==> changes_data(a),
{
    reveal_strlit("query_members");
    reveal_strlit("query_messages");
    reveal_strlit("post_message");
    reveal_strlit("query_proposals");
    reveal_strlit("create_proposal");
    reveal_strlit("cast_vote");
    reveal_strlit("query_directory");
    reveal_strlit("publish_directory");
    reveal_strlit("query_connections");
    reveal_strlit("query_agenda");
    reveal_strlit("write_agenda");
    match a {
        CilAction::QueryMembers => {

        },
        CilAction::QueryMessages => {
            assert("query_messages"@.len() != "query_members"@.len());
        },
        CilAction::PostMessage => {
            assert("post_message"@.len() != "query_members"@.len());
            assert("post_message"@.len() != "query_messages"@.len());
        },
        CilAction::QueryProposals => {
            assert("query_proposals"@.len() != "query_members"@.len());
            assert("query_proposals"@.len() != "query_messages"@.len());
            assert("query_proposals"@.len() != "post_message"@.len());
        },
        CilAction::CreateProposal => {
            assert("create_proposal"@.len() != "query_members"@.len());
            assert("create_proposal"@.len() != "query_messages"@.len());
            assert("create_proposal"@.len() != "post_message"@.len());
            assert("create_proposal"@[0] != "query_proposals"@[0]);
        },
        CilAction::CastVote => {
            assert("cast_vote"@.len() != "query_members"@.len());
            assert("cast_vote"@.len() != "query_messages"@.len());
            assert("cast_vote"@.len() != "post_message"@.len());
            assert("cast_vote"@.len() != "query_proposals"@.len());
            assert("cast_vote"@.len() != "create_proposal"@.len());
        },
        CilAction::QueryDirectory => {
            assert("query_directory"@.len() != "query_members"@.len());
            assert("query_directory"@.len() != "query_messages"@.len());
            assert("query_directory"@.len() != "post_message"@.len());
            assert("query_directory"@[6] != "query_proposals"@[6]);
            assert("query_directory"@[0] != "create_proposal"@[0]);
            assert("query_directory"@.len() != "cast_vote"@.len());
        },
        CilAction::PublishDirectory => {
            assert("publish_directory"@.len() != "query_members"@.len());
            assert("publish_directory"@.len() != "query_messages"@.len());
            assert("publish_directory"@.len() != "post_message"@.len());
            assert("publish_directory"@.len() != "query_proposals"@.len());
            assert("publish_directory"@.len() != "create_proposal"@.len());
            assert("publish_directory"@.len() != "cast_vote"@.len());
            assert("publish_directory"@.len() != "query_directory"@.len());
        },
        CilAction::QueryConnections => {
            assert("query_connections"@.len() != "query_members"@.len());
            assert("query_connections"@.len() != "query_messages"@.len());
            assert("query_connections"@.len() != "post_message"@.len());
            assert("query_connections"@.len() != "query_proposals"@.len());
            assert("query_connections"@.len() != "create_proposal"@.len());
            assert("query_connections"@.len() != "cast_vote"@.len());
            assert("query_connections"@.len() != "query_directory"@.len());
            assert("query_connections"@[0] != "publish_directory"@[0]);
        },
        CilAction::QueryAgenda => {
            assert("query_agenda"@.len() != "query_members"@.len());
            assert("query_agenda"@.len() != "query_messages"@.len());
            assert("query_agenda"@[0] != "post_message"@[0]);
            assert("query_agenda"@.len() != "query_proposals"@.len());
            assert("query_agenda"@.len() != "create_proposal"@.len());
            assert("query_agenda"@.len() != "cast_vote"@.len());
            assert("query_agenda"@.len() != "query_directory"@.len());
            assert("query_agenda"@.len() != "publish_directory"@.len());
            assert("query_agenda"@.len() != "query_connections"@.len());
        },
        CilAction::WriteAgenda => {
            assert("write_agenda"@.len() != "query_members"@.len());
            assert("write_agenda"@.len() != "query_messages"@.len());
            assert("write_agenda"@[0] != "post_message"@[0]);
            assert("write_agenda"@.len() != "query_proposals"@.len());
            assert("write_agenda"@.len() != "create_proposal"@.len());
            assert("write_agenda"@.len() != "cast_vote"@.len());
            assert("write_agenda"@.len() != "query_directory"@.len());
            assert("write_agenda"@.len() != "publish_directory"@.len());
            assert("write_agenda"@.len() != "query_connections"@.len());
            assert("write_agenda"@[0] != "query_agenda"@[0]);
        },
    }
}

} // verus!
