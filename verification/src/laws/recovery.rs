//! How reads and connections are recovered, over whole runs.

use crate::android::engine::video_connect_step;
use crate::android::engine::video_read_step;
use crate::android::engine::AndroidBridgeError;
use crate::android::engine::VideoRead;
use crate::android::engine::VideoStep;
use crate::auth::ntlm::NtlmCredentials;
use crate::client::durable_open::DurableFileHandle;
use crate::client::error::ClientError;
use crate::client::file::FileHandle;
use crate::client::reconnect::durable_open_settled;
use crate::client::reconnect::fresh_recipe;
use crate::client::reconnect::path_open_settled;
use crate::client::reconnect::reconnect_settled;
use crate::client::reconnect::retryable;
use crate::client::reconnect::stage_settled;
use crate::client::reconnect::unc_of;
use crate::client::reconnect::ConnectStage;
use crate::client::reconnect::ConnectStep;
use crate::client::reconnect::FileIdentity;
use crate::client::reconnect::RecipeView;
use crate::client::reconnect::ReconnectError;
use crate::client::reconnect::RestoreStep;
use crate::client::recovering_read::backoff_step;
use crate::client::recovering_read::begin_step;
use crate::client::recovering_read::connect_step;
use crate::client::recovering_read::read_step;
use crate::client::recovering_read::ReadReconnectPolicy;
use crate::client::recovering_read::ReadRecovery;
use crate::client::recovering_read::RecoveryStep;
use crate::clock::nanos_of;
use crate::stream::video::StreamError;
use vstd::prelude::*;

verus! {

/// An error is worth another connection if and only if the transport failed, a stage took too long, or
/// the server says that the share is gone, 0xC00000C9, or the session, 0xC0000203, or that the
/// session is over, 0xC000035C.
pub proof fn law_retryable(error: ClientError)
    ensures
        retryable(error) <==> match error {
            ClientError::Io(_) => true,
            ClientError::Timeout(_) => true,
            ClientError::ServerStatus(status) => status == 0xC000_00C9u32 || status
                == 0xC000_0203u32 || status == 0xC000_035Cu32,
            ClientError::Wire(_) => false,
            ClientError::Auth(_) => false,
            ClientError::Protocol(_) => false,
            ClientError::Cancelled => false,
            ClientError::Capability(_) => false,
        },
{
}

/// Whether one step of a recovering read follows another, for some outcome of what it asked for.
pub open spec fn recovery_follows(
    a: RecoveryStep,
    b: RecoveryStep,
    read: Result<Vec<u8>, ClientError>,
    connected: Result<(), ReconnectError>,
    current: bool,
) -> bool {
    match a {
        RecoveryStep::Read(recovery) => b == read_step(recovery, read, current),
        RecoveryStep::Connect(recovery) => b == connect_step(recovery, connected, current),
        RecoveryStep::Backoff(recovery) => b == backoff_step(recovery, current),
        RecoveryStep::Done(_) => false,
        RecoveryStep::Fail(_) => false,
    }
}

/// Whether steps are those of a recovering read, from its beginning on.
pub open spec fn recovery_run(steps: Seq<RecoveryStep>, policy: ReadReconnectPolicy) -> bool {
    &&& steps.len() > 0
    &&& steps[0] == begin_step(policy, true)
    &&& forall|i: int| 0 <= i < steps.len() - 1 ==> #[trigger] recovery_moves(steps[i], steps[i + 1])
}

/// Whether one step of a recovering read follows another.
pub open spec fn recovery_moves(a: RecoveryStep, b: RecoveryStep) -> bool {
    exists|read: Result<Vec<u8>, ClientError>, connected: Result<(), ReconnectError>, current: bool|
     #[trigger]
        recovery_follows(a, b, read, connected, current)
}

/// How many of the first steps ask for a connection.
pub open spec fn connections(steps: Seq<RecoveryStep>, n: int) -> int
    decreases n,
{
    if n <= 0 {
        0
    } else {
        connections(steps, n - 1) + if steps[n - 1] is Connect {
            1int
        } else {
            0
        }
    }
}

/// How many of the first steps ask for a read.
pub open spec fn readings(steps: Seq<RecoveryStep>, n: int) -> int
    decreases n,
{
    if n <= 0 {
        0
    } else {
        readings(steps, n - 1) + if steps[n - 1] is Read {
            1int
        } else {
            0
        }
    }
}

/// What is counted of a recovering read is what has happened of it.
proof fn lemma_recovery_counts(steps: Seq<RecoveryStep>, policy: ReadReconnectPolicy, n: int)
    requires
        recovery_run(steps, policy),
        0 < n <= steps.len(),
    ensures
        connections(steps, n) <= policy.max_connect_attempts,
        readings(steps, n) <= 2,
        connections(steps, n) >= 0,
        readings(steps, n) >= 2 ==> connections(steps, n) > 0,
        match steps[n - 1] {
            RecoveryStep::Read(recovery) => recovery.policy == policy && readings(steps, n)
                == if recovery.replaying {
                2int
            } else {
                1
            } && (!recovery.replaying ==> connections(steps, n) == 0),
            RecoveryStep::Connect(recovery) => recovery.policy == policy && !recovery.replaying
                && readings(steps, n) == 1 && connections(steps, n) == recovery.attempts
                && recovery.attempts > 0,
            RecoveryStep::Backoff(recovery) => recovery.policy == policy && !recovery.replaying
                && readings(steps, n) == 1 && connections(steps, n) == recovery.attempts
                && 0 < recovery.attempts < policy.max_connect_attempts,
            RecoveryStep::Done(_) => true,
            RecoveryStep::Fail(_) => true,
        },
    decreases n,
{
    reveal_with_fuel(connections, 2);
    reveal_with_fuel(readings, 2);
    if n > 1 {
        lemma_recovery_counts(steps, policy, n - 1);
        let a = steps[n - 2];
        let b = steps[n - 1];
        assert(recovery_moves(steps[n - 2], steps[n - 2 + 1]));
        let (read, connected, current) = choose|
            read: Result<Vec<u8>, ClientError>,
            connected: Result<(), ReconnectError>,
            current: bool,
        | #[trigger]
            recovery_follows(a, b, read, connected, current);
        assert(recovery_follows(a, b, read, connected, current));
    }
}

/// However a recovering read goes, it begins with a read, connects no more often than its policy allows and
/// reads at most twice, the second time only after a connection. One that is not wanted any more does
/// not begin.
pub proof fn law_recovery_is_bounded(steps: Seq<RecoveryStep>, policy: ReadReconnectPolicy)
    requires
        recovery_run(steps, policy),
    ensures
        connections(steps, steps.len() as int) <= policy.max_connect_attempts,
        readings(steps, steps.len() as int) <= 2,
        connections(steps, steps.len() as int) == 0 ==> readings(steps, steps.len() as int) <= 1,
        steps[0] is Read,
        begin_step(policy, false) == RecoveryStep::Fail(ReconnectError::Cancelled),
{
    let n = steps.len() as int;
    lemma_recovery_counts(steps, policy, n);
}

/// What a read gives is returned as it is. A failure is answered with a connection if and only if it is
/// worth one, the read is not already a replay, the policy allows any and the read is still wanted.
pub proof fn law_read_outcome(
    recovery: ReadRecovery,
    data: Vec<u8>,
    error: ClientError,
    current: bool,
)
    ensures
        read_step(recovery, Ok(data), current) == RecoveryStep::Done(data),
        read_step(recovery, Err(error), current) is Connect <==> {
            &&& retryable(error)
            &&& !recovery.replaying
            &&& recovery.policy.max_connect_attempts > 0
            &&& current
        },
        !(read_step(recovery, Err(error), current) is Connect) ==> read_step(
            recovery,
            Err(error),
            current,
        ) is Fail,
        error == ClientError::Cancelled ==> read_step(recovery, Err(error), current)
            == RecoveryStep::Fail(ReconnectError::Cancelled),
        !retryable(error) && error != ClientError::Cancelled ==> read_step(
            recovery,
            Err(error),
            current,
        ) == RecoveryStep::Fail(ReconnectError::Client(error)),
{
}

/// A connection that stands is followed by the read. One that failed is tried again if and only if the
/// failure is worth it, an attempt is left and the read is still wanted, after the backoff where the
/// policy has one; otherwise the failure itself ends the read, or the cancellation.
pub proof fn law_connection_outcome(
    recovery: ReadRecovery,
    error: ReconnectError,
    current: bool,
)
    ensures
        connect_step(recovery, Ok(()), current) == RecoveryStep::Read(
            ReadRecovery { replaying: true, ..recovery },
        ),
        ({
            let worth = error is Client && retryable(error->Client_0) && recovery.attempts
                < recovery.policy.max_connect_attempts;
            let step = connect_step(recovery, Err(error), current);
            &&& worth && current && nanos_of(recovery.policy.backoff) > 0 ==> step
                == RecoveryStep::Backoff(recovery)
            &&& worth && current && nanos_of(recovery.policy.backoff) == 0 ==> step
                == RecoveryStep::Connect(
                ReadRecovery { attempts: (recovery.attempts + 1) as usize, ..recovery },
            )
            &&& worth && !current ==> step == RecoveryStep::Fail(ReconnectError::Cancelled)
            &&& !worth ==> step == RecoveryStep::Fail(error)
        }),
        backoff_step(recovery, true) == RecoveryStep::Connect(
            ReadRecovery { attempts: (recovery.attempts + 1) as usize, ..recovery },
        ),
        backoff_step(recovery, false) == RecoveryStep::Fail(ReconnectError::Cancelled),
{
}

/// A read of a video goes the same way: what it gives is returned as it is, a failure is answered with
/// a connection if and only if it is one of the client that is worth it, none was used before, the
/// engine allows any and the read is still wanted; a failed connection is tried again if and only if
/// it is worth it, an attempt is left and the read is still wanted.
pub proof fn law_video_read_outcome(
    read: VideoRead,
    data: Vec<u8>,
    error: StreamError,
    failed: ReconnectError,
    current: bool,
)
    ensures
        video_read_step(read, Ok(data), current) == VideoStep::Done(data),
        video_read_step(read, Err(error), current) is Connect <==> {
            &&& error is Client
            &&& retryable(error->Client_0)
            &&& !read.recovery_used
            &&& read.max_attempts > 0
            &&& current
        },
        video_read_step(read, Err(error), current) is Connect ==> video_read_step(
            read,
            Err(error),
            current,
        ) == VideoStep::Connect(VideoRead { attempts: 1, recovery_used: true, ..read }),
        !(error is Client && retryable(error->Client_0)) ==> video_read_step(
            read,
            Err(error),
            current,
        ) == VideoStep::Fail(AndroidBridgeError::Stream(error)),
        video_connect_step(read, Ok(()), current) == VideoStep::Read(read),
        ({
            let worth = failed is Client && retryable(failed->Client_0) && read.attempts
                < read.max_attempts;
            let step = video_connect_step(read, Err(failed), current);
            &&& worth && current && nanos_of(read.backoff) > 0 ==> step == VideoStep::Backoff(read)
            &&& worth && current && nanos_of(read.backoff) == 0 ==> step == VideoStep::Connect(
                VideoRead { attempts: (read.attempts + 1) as usize, ..read },
            )
            &&& worth && !current ==> step == VideoStep::Fail(
                AndroidBridgeError::Stream(StreamError::Client(ClientError::Cancelled)),
            )
            &&& !worth && failed is Client ==> step == VideoStep::Fail(
                AndroidBridgeError::Client(failed->Client_0),
            )
            &&& failed is Cancelled ==> step == VideoStep::Fail(
                AndroidBridgeError::Stream(StreamError::Client(ClientError::Cancelled)),
            )
            &&& failed is RandomSource ==> step == VideoStep::Fail(AndroidBridgeError::RandomSource)
        }),
{
}

/// The tree of a recipe is two backslashes, the host, a backslash and the share.
pub proof fn law_tree_of_a_recipe(host: Seq<char>, share: Seq<char>)
    ensures
        ({
            let path = unc_of(host, share);
            let n = host.len() as int;
            &&& path.len() == n + share.len() + 3
            &&& path[0] == '\\'
            &&& path[1] == '\\'
            &&& path.subrange(2, 2 + n) == host
            &&& path[2 + n] == '\\'
            &&& path.skip(3 + n) == share
        }),
{
    reveal_strlit("\\\\");
    reveal_strlit("\\");
    let path = unc_of(host, share);
    let n = host.len() as int;
    assert(path.subrange(2, 2 + n) =~= host);
    assert(path.skip(3 + n) =~= share);
}

/// A connection is made stage by stage: the transport, the dialect, the session by the recipe's own
/// user, password, domain and workstation, or by nobody where it names no user, then its share, then
/// the file. A failure of any stage ends it with that failure.
pub proof fn law_connecting_follows_the_recipe(
    step: ConnectStep,
    recipe: RecipeView,
    stage: ConnectStage,
    outcome: Result<(), ClientError>,
    drawn: Option<[u8; 16]>,
)
    requires
        stage_settled(step, recipe, stage, outcome, drawn),
    ensures
        outcome is Err ==> step == ConnectStep::Fail(ReconnectError::Client(outcome->Err_0)),
        outcome is Ok ==> match stage {
            ConnectStage::Transport => step is Negotiate,
            ConnectStage::Negotiate => {
                &&& step is SetUpSession
                &&& step->SetUpSession_0 is None <==> recipe.username.len() == 0
                &&& step->SetUpSession_0 is Some ==> {
                    let credentials = step->SetUpSession_0->0;
                    &&& credentials.username@ == recipe.username
                    &&& credentials.password@ == recipe.password
                    &&& credentials.domain@ == recipe.domain
                    &&& credentials.workstation@ == recipe.workstation
                }
            },
            ConnectStage::Session => {
                let path = step->ConnectTree_0@;
                let n = recipe.host.len() as int;
                &&& step is ConnectTree
                &&& path.len() == n + recipe.share.len() + 3
                &&& path.subrange(2, 2 + n) == recipe.host
                &&& path.skip(3 + n) == recipe.share
            },
            ConnectStage::Tree => {
                let next = step->Restore_0;
                let durable = recipe.durable_v2_enabled;
                &&& step is Restore
                &&& durable && recipe.durable is Some ==> next == RestoreStep::ReconnectDurable
                &&& durable && recipe.durable is None && !recipe.unavailable && drawn is Some
                    ==> next == RestoreStep::OpenDurable(drawn->0)
                &&& durable && recipe.durable is None && !recipe.unavailable && drawn is None
                    ==> next == RestoreStep::Fail(ReconnectError::RandomSource)
                &&& durable && recipe.durable is None && recipe.unavailable ==> next
                    == RestoreStep::OpenPath
                &&& !durable ==> next == RestoreStep::OpenPath
            },
        },
{
    law_tree_of_a_recipe(recipe.host, recipe.share);
}

/// A recipe that has restored nothing yet sets its session up as the user it was given, with the password,
/// in the domain and at the workstation, on the host and the share it was given, and opens its path
/// there, without a durable handle and whatever file it may be.
pub proof fn law_fresh_recipe(
    host: Seq<char>,
    port: u16,
    share: Seq<char>,
    path: Seq<char>,
    username: Seq<char>,
    password: Seq<char>,
    domain: Seq<char>,
    workstation: Seq<char>,
    credentials: NtlmCredentials,
    tree: ConnectStep,
    restore: ConnectStep,
    file: FileHandle,
    step: RestoreStep,
    after: RecipeView,
)
    requires
        username.len() > 0,
        stage_settled(
            ConnectStep::SetUpSession(Some(credentials)),
            fresh_recipe(host, port, share, path, username, password, domain, workstation),
            ConnectStage::Negotiate,
            Ok(()),
            None,
        ),
        stage_settled(
            tree,
            fresh_recipe(host, port, share, path, username, password, domain, workstation),
            ConnectStage::Session,
            Ok(()),
            None,
        ),
        stage_settled(
            restore,
            fresh_recipe(host, port, share, path, username, password, domain, workstation),
            ConnectStage::Tree,
            Ok(()),
            None,
        ),
        path_open_settled(
            step,
            fresh_recipe(host, port, share, path, username, password, domain, workstation),
            after,
            Ok(file),
        ),
    ensures
        credentials.username@ == username,
        credentials.password@ == password,
        credentials.domain@ == domain,
        credentials.workstation@ == workstation,
        tree is ConnectTree,
        tree->ConnectTree_0@.subrange(2, 2 + host.len() as int) == host,
        tree->ConnectTree_0@.skip(3 + host.len() as int) == share,
        restore == ConnectStep::Restore(RestoreStep::OpenPath),
        step == RestoreStep::Done(file),
        after.path == path,
        after.port == port,
{
    law_tree_of_a_recipe(host, share);
}

/// Whether a file may be the one that was first opened: of the same length, and made and written at the
/// same times where both are known.
pub open spec fn may_be_the_file(first: FileIdentity, file: FileHandle) -> bool {
    &&& first.len == file.end_of_file
    &&& first.creation_time == 0 || file.creation_time == 0 || first.creation_time
        == file.creation_time
    &&& first.last_write_time == 0 || file.last_write_time == 0 || first.last_write_time
        == file.last_write_time
}

/// A path that was opened is the restored file if and only if it may be the file that was first opened;
/// the first one is remembered by its length and times. Any other ends the restoring.
pub proof fn law_path_is_restored(
    step: RestoreStep,
    recipe: RecipeView,
    after: RecipeView,
    file: FileHandle,
)
    requires
        path_open_settled(step, recipe, after, Ok(file)),
    ensures
        step is Done <==> recipe.identity is None || may_be_the_file(recipe.identity->0, file),
        step is Done ==> step->Done_0 == file,
        !(step is Done) ==> step is Fail && after == recipe,
        step is Done && recipe.identity is Some ==> after == recipe,
        step is Done && recipe.identity is None ==> after == (RecipeView {
            identity: Some(
                FileIdentity {
                    len: file.end_of_file,
                    creation_time: file.creation_time,
                    last_write_time: file.last_write_time,
                },
            ),
            ..recipe
        }),
{
}

/// A durable handle that was taken up again, or opened, is the restored file if and only if it may be
/// the file that was first opened, and is then remembered. Any other is closed, and the restoring
/// fails; where it was taken up again, it is also forgotten.
pub proof fn law_durable_is_restored(
    step: RestoreStep,
    recipe: RecipeView,
    after: RecipeView,
    durable: DurableFileHandle,
    drawn: Option<[u8; 16]>,
    again: bool,
)
    requires
        if again {
            reconnect_settled(step, recipe, after, Ok(durable), drawn)
        } else {
            durable_open_settled(step, recipe, after, Ok(durable))
        },
    ensures
        step is Done <==> recipe.identity is None || may_be_the_file(
            recipe.identity->0,
            durable.file,
        ),
        step is Done ==> step->Done_0@ == durable.file@ && after.durable == Some(durable@),
        !(step is Done) ==> step is CloseThenFail && step->CloseThenFail_0 == durable.file,
        !(step is Done) && again ==> after == (RecipeView { durable: None, ..recipe }),
        !(step is Done) && !again ==> after == recipe,
{
}

/// A durable handle that the server has lost, 0xC0000034, is forgotten, and the file is opened anew: with
/// a durable handle where they are enabled and available, and by its path otherwise. Where the server
/// lacks them they are not asked for again.
pub proof fn law_lost_handle_is_opened_anew(
    step: RestoreStep,
    recipe: RecipeView,
    after: RecipeView,
    error: ClientError,
    drawn: Option<[u8; 16]>,
)
    requires
        reconnect_settled(step, recipe, after, Err(error), drawn),
    ensures
        error == ClientError::ServerStatus(0xC000_0034u32) ==> {
            &&& after == (RecipeView { durable: None, ..recipe })
            &&& recipe.durable_v2_enabled && !recipe.unavailable && drawn is Some ==> step
                == RestoreStep::OpenDurable(drawn->0)
            &&& !recipe.durable_v2_enabled || recipe.unavailable ==> step == RestoreStep::OpenPath
        },
        error is Capability ==> {
            &&& after == (RecipeView { durable: None, unavailable: true, ..recipe })
            &&& step == RestoreStep::OpenPath
        },
        error != ClientError::ServerStatus(0xC000_0034u32) && !(error is Capability) ==> {
            &&& after == recipe
            &&& step == RestoreStep::Fail(ReconnectError::Client(error))
        },
{
}

} // verus!
