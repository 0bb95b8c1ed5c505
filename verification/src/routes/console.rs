//! Endpoints for the console: calls to the node, and what is known of it.
use vstd::prelude::*;

use crate::adapters::status_display;
use crate::flow::{
    lemma_sound_run_finishes, post_call, post_to, refuse, replies, run, sound, stop, stop_with,
    success, Action, ActionView, ApiError, ApiErrorView, Event, EventView, Machine, Payload,
    PayloadView, RpcBodyView, Step, StepView, BAD_GATEWAY, INTERNAL, UNAVAILABLE,
};
use crate::rpc::{
    authorization, build_rpc_client, cookie_authorization, encodable, user_authorization,
    user_credentials, RpcAuth,
};
use crate::text::{opt_str_view, opt_view, trimmed};

verus! {

// ---------------------------------------------------------------------------
// Calls to the node
// ---------------------------------------------------------------------------

pub struct RpcRequest {
    pub method: String,
    /// The parameters, as a JSON text.
    pub params: String,
}

/// The reply to a call.
pub enum RpcReply {
    /// What the node said, as a JSON text.
    Body(String),
    /// The error that the node gave, as a JSON text.
    Fault(String),
}

pub ghost enum RpcReplyView {
    Body(Seq<char>),
    Fault(Seq<char>),
}

impl View for RpcReply {
    type V = RpcReplyView;

    open spec fn view(&self) -> RpcReplyView {
        match self {
            RpcReply::Body(json) => RpcReplyView::Body(json@),
            RpcReply::Fault(json) => RpcReplyView::Fault(json@),
        }
    }
}

/// Seconds to wait for the node.
pub const RPC_TIMEOUT: u64 = 30;

/// How far a call has come.
pub enum ProxyStage {
    /// The cookie file is being read.
    Cookie { url: String, method: String, params: String },
    /// The node is being called.
    Call,
    /// The reply is being read; it came with a status.
    Read { code: u16, status: String },
}

pub ghost enum ProxyStageView {
    Cookie { url: Seq<char>, method: Seq<char>, params: Seq<char> },
    Call,
    Read { code: u16, status: Seq<char> },
}

impl View for ProxyStage {
    type V = ProxyStageView;

    open spec fn view(&self) -> ProxyStageView {
        match self {
            ProxyStage::Cookie { url, method, params } => ProxyStageView::Cookie {
                url: url@,
                method: method@,
                params: params@,
            },
            ProxyStage::Call => ProxyStageView::Call,
            ProxyStage::Read { code, status } => ProxyStageView::Read {
                code: *code,
                status: status@,
            },
        }
    }
}

pub type ProxyStep = StepView<ProxyStageView, RpcReplyView>;

/// The node is called.
pub open spec fn proxy_call(
    url: Seq<char>,
    method: Seq<char>,
    params: Seq<char>,
    authorization: Option<Seq<char>>,
) -> ProxyStep {
    StepView::Perform(
        ProxyStageView::Call,
        ActionView::Send(
            post_to(
                url,
                None,
                PayloadView::Rpc { method, params, authorization },
                Some(RPC_TIMEOUT),
            ),
        ),
    )
}

/// Calls a node.
pub fn proxy_rpc_call(url: String, request: RpcRequest, authorization: Option<String>) -> (step: Step<
    ProxyStage,
    RpcReply,
>)
    ensures
        step@ == proxy_call(url@, request.method@, request.params@, opt_view(authorization)),
{
    let payload = Payload::Rpc { method: request.method, params: request.params, authorization };
    Step::Perform(ProxyStage::Call, Action::Send(post_call(url, None, payload, Some(RPC_TIMEOUT))))
}

/// The first step of a call to the node, with the credentials of a user or, without
/// one, what a cookie file holds.
pub open spec fn spaced_start(
    url: Option<Seq<char>>,
    user: Option<Seq<char>>,
    password: Option<Seq<char>>,
    cookie: Option<Seq<char>>,
    method: Seq<char>,
    params: Seq<char>,
) -> ProxyStep {
    match url {
        None => stop(UNAVAILABLE, "Spaced RPC URL not configured"@),
        Some(url) => match (user, cookie) {
            (Some(user), _) => proxy_call(
                url,
                method,
                params,
                Some(authorization(user_credentials(user, password))),
            ),
            (None, Some(path)) => StepView::Perform(
                ProxyStageView::Cookie { url, method, params },
                ActionView::ReadFile(path),
            ),
            (None, None) => proxy_call(url, method, params, None),
        },
    }
}

/// Passes a call on to the node.
pub fn proxy_spaced(
    url: Option<&str>,
    user: Option<&str>,
    password: Option<&str>,
    cookie: Option<&str>,
    request: RpcRequest,
) -> (step: Step<ProxyStage, RpcReply>)
    requires
        user matches Some(u) ==> encodable(user_credentials(u@, opt_str_view(password))),
    ensures
        step@ == spaced_start(
            opt_str_view(url),
            opt_str_view(user),
            opt_str_view(password),
            opt_str_view(cookie),
            request.method@,
            request.params@,
        ),
{
    let url = match url {
        Some(url) => url.to_owned(),
        None => {
            return stop_with(UNAVAILABLE, "Spaced RPC URL not configured".to_owned());
        },
    };
    match build_rpc_client(user, password, cookie) {
        RpcAuth::Header(header) => proxy_rpc_call(url, request, Some(header)),
        RpcAuth::Cookie(path) => Step::Perform(
            ProxyStage::Cookie { url, method: request.method, params: request.params },
            Action::ReadFile(path),
        ),
        RpcAuth::Open => proxy_rpc_call(url, request, None),
    }
}

/// The first step of a call to the node of a test rig.
pub open spec fn bitcoin_start(url: Option<Seq<char>>, method: Seq<char>, params: Seq<char>) -> ProxyStep {
    match url {
        None => stop(UNAVAILABLE, "Bitcoin RPC not available (only in test-rig mode)"@),
        Some(url) => proxy_call(
            url,
            method,
            params,
            Some(authorization(user_credentials("user"@, Some("password"@)))),
        ),
    }
}

proof fn lemma_rig_credentials_fit()
    ensures
        encodable(user_credentials("user"@, Some("password"@))),
{
    reveal_strlit("user");
    reveal_strlit(":");
    reveal_strlit("password");
    let credentials = user_credentials("user"@, Some("password"@));
    assert(credentials.len() == 13);
    assert(vstd::utf8::is_ascii_chars(credentials));
    vstd::utf8::is_ascii_chars_encode_utf8(credentials);
}

/// Passes a call on to the node of a test rig.
pub fn proxy_bitcoin(url: Option<&str>, request: RpcRequest) -> (step: Step<ProxyStage, RpcReply>)
    ensures
        step@ == bitcoin_start(opt_str_view(url), request.method@, request.params@),
{
    match url {
        None => stop_with(
            UNAVAILABLE,
            "Bitcoin RPC not available (only in test-rig mode)".to_owned(),
        ),
        Some(url) => {
            proof {
                lemma_rig_credentials_fit();
            }
            let header = user_authorization("user", Some("password"));
            proxy_rpc_call(url.to_owned(), request, Some(header))
        },
    }
}

/// What the node's reply comes to: where it failed, the error that it gives, or that
/// it gave none.
pub open spec fn rpc_replied(code: u16, status: Seq<char>, body: RpcBodyView) -> ProxyStep {
    if success(code) {
        StepView::Finish(Ok(RpcReplyView::Body(body.json)))
    } else {
        match body.error {
            Some(error) => StepView::Finish(Ok(RpcReplyView::Fault(error))),
            None => stop(BAD_GATEWAY, "RPC error: "@ + status),
        }
    }
}

/// Whether an event brings a cookie that is too large to be presented.
pub open spec fn oversized_cookie(stage: ProxyStageView, event: EventView) -> bool {
    stage is Cookie && (event matches EventView::Text(Ok(cookie)) && !encodable(trimmed(cookie)))
}

/// The cookie is read where it is needed, the node is called, and its reply is read.
pub open spec fn proxy_next(stage: ProxyStageView, event: EventView) -> ProxyStep {
    match (stage, event) {
        (ProxyStageView::Cookie { .. }, EventView::Text(Err(e))) => stop(
            INTERNAL,
            "Failed to read RPC cookie file: "@ + e,
        ),
        (ProxyStageView::Cookie { url, method, params }, EventView::Text(Ok(cookie))) => proxy_call(
            url,
            method,
            params,
            Some(authorization(trimmed(cookie))),
        ),
        (ProxyStageView::Call, EventView::Sent(Err(e))) => stop(
            BAD_GATEWAY,
            "RPC request failed: "@ + e,
        ),
        (ProxyStageView::Call, EventView::Sent(Ok(code))) => StepView::Perform(
            ProxyStageView::Read { code, status: status_display(code) },
            ActionView::ReadRpc,
        ),
        (ProxyStageView::Read { .. }, EventView::Rpc(Err(e))) => stop(
            BAD_GATEWAY,
            "Invalid RPC response: "@ + e,
        ),
        (ProxyStageView::Read { code, status }, EventView::Rpc(Ok(body))) => rpc_replied(
            code,
            status,
            body,
        ),
        _ => StepView::Ignored(stage),
    }
}

impl ProxyStage {
    /// Takes in the reply to the last action.
    pub fn step(self, event: Event) -> (step: Step<ProxyStage, RpcReply>)
        requires
            !oversized_cookie(self@, event@),
        ensures
            step@ == proxy_next(self@, event@),
    {
        match (self, event) {
            (ProxyStage::Cookie { .. }, Event::Text(Err(e))) => stop_with(
                INTERNAL,
                "Failed to read RPC cookie file: ".to_owned().concat(e.as_str()),
            ),
            (ProxyStage::Cookie { url, method, params }, Event::Text(Ok(cookie))) => {
                let header = cookie_authorization(cookie.as_str());
                proxy_rpc_call(url, RpcRequest { method, params }, Some(header))
            },
            (ProxyStage::Call, Event::Sent(Err(e))) => stop_with(
                BAD_GATEWAY,
                "RPC request failed: ".to_owned().concat(e.as_str()),
            ),
            (ProxyStage::Call, Event::Sent(Ok(code))) => Step::Perform(
                ProxyStage::Read { code: code.as_u16(), status: code.text() },
                Action::ReadRpc,
            ),
            (ProxyStage::Read { .. }, Event::Rpc(Err(e))) => stop_with(
                BAD_GATEWAY,
                "Invalid RPC response: ".to_owned().concat(e.as_str()),
            ),
            (ProxyStage::Read { code, status }, Event::Rpc(Ok(body))) => {
                if 200 <= code && code <= 299 {
                    Step::Finish(Ok(RpcReply::Body(body.json)))
                } else {
                    match body.error {
                        Some(error) => Step::Finish(Ok(RpcReply::Fault(error))),
                        None => stop_with(
                            BAD_GATEWAY,
                            "RPC error: ".to_owned().concat(status.as_str()),
                        ),
                    }
                }
            },
            (stage, _) => Step::Ignored(stage),
        }
    }
}

/// How many actions a call may still take after the one it waits for.
pub open spec fn proxy_rank(stage: ProxyStageView) -> nat {
    match stage {
        ProxyStageView::Cookie { .. } => 2,
        ProxyStageView::Call => 1,
        ProxyStageView::Read { .. } => 0,
    }
}

/// The machine of a call.
pub open spec fn proxy_machine() -> Machine<ProxyStageView, RpcReplyView> {
    |stage: ProxyStageView, event: EventView| proxy_next(stage, event)
}

/// A call whose actions are answered comes to an answer of its own within three
/// actions.
pub proof fn lemma_proxy_is_answered(
    url: Option<Seq<char>>,
    user: Option<Seq<char>>,
    password: Option<Seq<char>>,
    cookie: Option<Seq<char>>,
    method: Seq<char>,
    params: Seq<char>,
    reply: spec_fn(nat, ActionView) -> EventView,
)
    requires
        replies(reply),
    ensures
        run(
            proxy_machine(),
            spaced_start(url, user, password, cookie, method, params),
            reply,
            0,
            3,
        ) is Finish,
{
    let rank = |stage: ProxyStageView| proxy_rank(stage);
    let inside = |stage: ProxyStageView| true;
    assert(sound(proxy_machine(), rank, inside));
    lemma_sound_run_finishes(
        proxy_machine(),
        rank,
        inside,
        spaced_start(url, user, password, cookie, method, params),
        reply,
        0,
        3,
    );
}

// ---------------------------------------------------------------------------
// Mining
// ---------------------------------------------------------------------------

pub struct MineRequest {
    pub count: u32,
}

/// How many blocks are mined where no number is given.
pub fn default_mine_count() -> (count: u32)
    ensures
        count == 1,
{
    1
}

pub struct MineResponse {
    pub success: bool,
    pub blocks_mined: u32,
}

/// How many blocks to mine, where there is a test rig.
pub fn mine_blocks(has_rig: bool, request: &MineRequest) -> (count: Result<u32, ApiError>)
    ensures
        has_rig ==> count == Ok::<u32, ApiError>(request.count),
        !has_rig ==> (count matches Err(e) && e@ == (ApiErrorView {
            status: UNAVAILABLE,
            message: "Mining only available in test-rig mode"@,
        })),
{
    if has_rig {
        Ok(request.count)
    } else {
        Err(refuse(UNAVAILABLE, "Mining only available in test-rig mode".to_owned()))
    }
}

/// The answer to a request to mine.
pub fn mine_answer(count: u32, mined: Result<(), String>) -> (answer: Result<MineResponse, ApiError>)
    ensures
        mined is Ok ==> answer == Ok::<MineResponse, ApiError>(
            MineResponse { success: true, blocks_mined: count },
        ),
        mined matches Err(e) ==> (answer matches Err(r) && r@ == (ApiErrorView {
            status: INTERNAL,
            message: "Failed to mine: "@ + e@,
        })),
{
    match mined {
        Ok(_) => Ok(MineResponse { success: true, blocks_mined: count }),
        Err(e) => Err(refuse(INTERNAL, "Failed to mine: ".to_owned().concat(e.as_str()))),
    }
}

// ---------------------------------------------------------------------------
// What is known of the node
// ---------------------------------------------------------------------------

/// What a node says of itself.
pub struct ServerInfo {
    pub network: String,
    pub tip_height: u32,
    pub chain_height: u32,
    pub synced: bool,
}

/// What could be found out from a node.
pub struct NodeStatus {
    pub info: Option<ServerInfo>,
    pub balance_sats: Option<u64>,
}

/// Where the nodes are.
pub struct NodeUrls {
    pub spaced: Option<String>,
    pub bitcoin: Option<String>,
    pub certrelay: Option<String>,
}

pub struct RpcEndpoints {
    pub spaced: Option<String>,
    pub bitcoin: Option<String>,
    pub certrelay: Option<String>,
    pub wallet: String,
    pub balance_sats: u64,
    pub network: String,
    pub tip_height: u32,
    pub chain_height: u32,
    pub synced: bool,
}

/// What is known of the node, given what it says where there is one: what could not
/// be found out counts as nothing.
pub fn get_endpoints(urls: NodeUrls, wallet: String, node: Option<NodeStatus>) -> (known: RpcEndpoints)
    ensures
        known.spaced == urls.spaced,
        known.bitcoin == urls.bitcoin,
        known.certrelay == urls.certrelay,
        known.wallet == wallet,
        match node {
            None => known.balance_sats == 0 && known.network@ == "offline"@ && known.tip_height == 0
                && known.chain_height == 0 && !known.synced,
            Some(n) => {
                &&& known.balance_sats == (match n.balance_sats {
                    Some(b) => b,
                    None => 0,
                })
                &&& match n.info {
                    Some(info) => known.network == info.network && known.tip_height
                        == info.tip_height && known.chain_height == info.chain_height
                        && known.synced == info.synced,
                    None => known.network@ == "unknown"@ && known.tip_height == 0
                        && known.chain_height == 0 && !known.synced,
                }
            },
        },
{
    let (balance_sats, info): (u64, ServerInfo) = match node {
        None => (
            0,
            ServerInfo {
                network: "offline".to_owned(),
                tip_height: 0,
                chain_height: 0,
                synced: false,
            },
        ),
        Some(n) => {
            let balance: u64 = match n.balance_sats {
                Some(b) => b,
                None => 0,
            };
            let info = match n.info {
                Some(info) => info,
                None => ServerInfo {
                    network: "unknown".to_owned(),
                    tip_height: 0,
                    chain_height: 0,
                    synced: false,
                },
            };
            (balance, info)
        },
    };
    RpcEndpoints {
        spaced: urls.spaced,
        bitcoin: urls.bitcoin,
        certrelay: urls.certrelay,
        wallet,
        balance_sats,
        network: info.network,
        tip_height: info.tip_height,
        chain_height: info.chain_height,
        synced: info.synced,
    }
}

} // verus!
