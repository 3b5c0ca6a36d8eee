use vstd::prelude::*;

use crate::base::FreeRtosError;

verus! {

/// A message that may name the client that waits for a reply to it.
pub trait ReplyableMessage {
    /// The client that waits for a reply, if any.
    spec fn reply_client(&self) -> Option<usize>;

    fn reply_to_client_id(&self) -> (r: Option<usize>)
        ensures
            r == self.reply_client(),
    ;
}

/// The messages of the processor pattern: a request, a request that waits for a
/// reply, and a reply.
#[derive(Copy, Clone)]
pub enum Message<T: Copy> {
    Request { val: T },
    RequestWithReply { val: T, client_id: usize },
    Reply { val: T },
}

/// The value that a message carries.
pub open spec fn message_val<T: Copy>(m: Message<T>) -> T {
    match m {
        Message::Request { val } => val,
        Message::RequestWithReply { val, .. } => val,
        Message::Reply { val } => val,
    }
}

impl<T> Message<T> where T: Copy {
    pub fn request(val: T) -> (m: Self)
        ensures
            m == (Message::Request { val }),
    {
        Message::Request { val: val }
    }

    /// A request whose reply goes to the client with id `client_id`.
    pub fn request_with_reply(val: T, client_id: usize) -> (m: Self)
        ensures
            m == (Message::RequestWithReply { val, client_id }),
    {
        Message::RequestWithReply { val: val, client_id: client_id }
    }

    pub fn reply(val: T) -> (m: Self)
        ensures
            m == (Message::Reply { val }),
    {
        Message::Reply { val: val }
    }

    pub fn get_val(&self) -> (v: T)
        ensures
            v == message_val(*self),
    {
        match *self {
            Message::Request { val } => val,
            Message::RequestWithReply { val, .. } => val,
            Message::Reply { val } => val,
        }
    }
}

impl<T> ReplyableMessage for Message<T> where T: Copy {
    open spec fn reply_client(&self) -> Option<usize> {
        match *self {
            Message::RequestWithReply { client_id, .. } => Some(client_id),
            _ => None,
        }
    }

    fn reply_to_client_id(&self) -> (r: Option<usize>) {
        match *self {
            Message::RequestWithReply { client_id, .. } => Some(client_id),
            _ => None,
        }
    }
}

/// Whether some client in `clients` has the id `id`.
pub open spec fn has_client<H>(clients: Seq<(usize, H)>, id: usize) -> bool {
    exists|i: int| 0 <= i < clients.len() && #[trigger] clients[i].0 == id
}

/// No two clients share an id.
pub open spec fn ids_unique<H>(clients: Seq<(usize, H)>) -> bool {
    forall|i: int, j: int|
        0 <= i < clients.len() && 0 <= j < clients.len() && i != j ==> #[trigger] clients[i].0
            != #[trigger] clients[j].0
}

/// The registry's invariant: ids are unique, and every id was handed out before
/// `next_id`, counting from one.
pub open spec fn registry_wf<H>(clients: Seq<(usize, H)>, next_id: usize) -> bool {
    &&& next_id >= 1
    &&& ids_unique(clients)
    &&& forall|i: int| 0 <= i < clients.len() ==> 1 <= #[trigger] clients[i].0 < next_id
}

/// The processor's record of the clients that wait for replies: each has an id
/// and a handle through which it is reached.
pub struct ProcessorInner<H> {
    clients: Vec<(usize, H)>,
    next_client_id: usize,
}

impl<H> ProcessorInner<H> {
    /// The registered clients, in the order in which they came.
    pub closed spec fn clients(&self) -> Seq<(usize, H)> {
        self.clients@
    }

    /// The id that the next client gets.
    pub closed spec fn next_id(&self) -> usize {
        self.next_client_id
    }

    /// The registry's invariant, which every registry keeps.
    #[verifier::type_invariant]
    spec fn inv(&self) -> bool {
        registry_wf(self.clients@, self.next_client_id)
    }

    /// The registry's invariant, over its view.
    pub open spec fn wf(&self) -> bool {
        registry_wf(self.clients(), self.next_id())
    }

    pub fn new() -> (p: Self)
        ensures
            p.wf(),
            p.clients() == Seq::<(usize, H)>::empty(),
            p.next_id() == 1,
    {
        ProcessorInner { clients: Vec::new(), next_client_id: 1 }
    }

    pub fn next_client_id(&self) -> (id: usize)
        ensures
            id == self.next_id(),
            self.wf(),
    {
        proof {
            use_type_invariant(self);
        }
        self.next_client_id
    }

    /// Registers a client under the next id and returns that id.
    pub fn add_client(&mut self, handle: H) -> (id: usize)
        requires
            old(self).next_id() < usize::MAX,
        ensures
            old(self).wf(),
            final(self).wf(),
            id == old(self).next_id(),
            !has_client(old(self).clients(), id),
            final(self).clients() == old(self).clients().push((id, handle)),
            final(self).next_id() == old(self).next_id() + 1,
    {
        proof {
            use_type_invariant(&*self);
        }
        let id = self.next_client_id;
        self.next_client_id = id + 1;
        let mut clients: Vec<(usize, H)> = Vec::new();
        std::mem::swap(&mut clients, &mut self.clients);
        let ghost before = clients@;
        clients.push((id, handle));
        proof {
            let c = clients@;
            assert(c == before.push((id, handle)));
            assert forall|i: int, j: int|
                0 <= i < c.len() && 0 <= j < c.len() && i != j implies #[trigger] c[i].0
                != #[trigger] c[j].0 by {
                if i < c.len() - 1 {
                    assert(c[i] == before[i]);
                }
                if j < c.len() - 1 {
                    assert(c[j] == before[j]);
                }
            }
            assert forall|i: int| 0 <= i < c.len() implies 1 <= #[trigger] c[i].0 < id + 1 by {
                if i < c.len() - 1 {
                    assert(c[i] == before[i]);
                }
            }
            if has_client(before, id) {
                let k = choose|k: int| 0 <= k < before.len() && #[trigger] before[k].0 == id;
                assert(before[k].0 < id);
            }
        }
        self.clients = clients;
        id
    }

    /// The handle of the client with id `client_id`, if it is registered.
    pub fn find_client(&self, client_id: usize) -> (r: Option<&H>)
        ensures
            self.wf(),
            r is Some <==> has_client(self.clients(), client_id),
            r matches Some(h) ==> exists|i: int|
                0 <= i < self.clients().len() && #[trigger] self.clients()[i] == (client_id, *h),
    {
        proof {
            use_type_invariant(self);
        }
        let mut i: usize = 0;
        while i < self.clients.len()
            invariant
                registry_wf(self.clients@, self.next_client_id),
                i <= self.clients@.len(),
                forall|k: int| 0 <= k < i ==> #[trigger] self.clients@[k].0 != client_id,
            decreases self.clients@.len() - i,
        {
            if self.clients[i].0 == client_id {
                proof {
                    assert(self.clients()[i as int] == (client_id, self.clients@[i as int].1));
                }
                return Some(&self.clients[i].1);
            }
            i = i + 1;
        }
        None
    }

    /// Forgets the client with id `client_id`; the others keep their order.
    pub fn remove_client_reply(&mut self, client_id: usize)
        ensures
            old(self).wf(),
            final(self).wf(),
            final(self).next_id() == old(self).next_id(),
            !has_client(final(self).clients(), client_id),
            has_client(old(self).clients(), client_id) ==> exists|i: int|
                0 <= i < old(self).clients().len() && #[trigger] old(self).clients()[i].0
                    == client_id && final(self).clients() == old(self).clients().remove(i),
            !has_client(old(self).clients(), client_id) ==> final(self).clients() == old(
                self,
            ).clients(),
    {
        proof {
            use_type_invariant(&*self);
        }
        let next = self.next_client_id;
        let mut clients: Vec<(usize, H)> = Vec::new();
        std::mem::swap(&mut clients, &mut self.clients);
        let ghost original = clients@;
        let mut i: usize = 0;
        while i < clients.len()
            invariant
                clients@ == original,
                registry_wf(clients@, next),
                i <= clients@.len(),
                forall|k: int| 0 <= k < i ==> #[trigger] clients@[k].0 != client_id,
            ensures
                i == clients@.len() || clients@[i as int].0 == client_id,
                i <= clients@.len(),
                forall|k: int| 0 <= k < i ==> #[trigger] clients@[k].0 != client_id,
            decreases clients@.len() - i,
        {
            if clients[i].0 == client_id {
                break;
            }
            i = i + 1;
        }
        if i < clients.len() {
            let _ = clients.remove(i);
            proof {
                let c = clients@;
                assert(c == original.remove(i as int));
                assert forall|a: int, b: int|
                    0 <= a < c.len() && 0 <= b < c.len() && a != b implies #[trigger] c[a].0
                    != #[trigger] c[b].0 by {
                    let a2 = if a < i { a } else { a + 1 };
                    let b2 = if b < i { b } else { b + 1 };
                    assert(c[a] == original[a2]);
                    assert(c[b] == original[b2]);
                }
                assert forall|a: int| 0 <= a < c.len() implies 1 <= #[trigger] c[a].0 < next by {
                    let a2 = if a < i { a } else { a + 1 };
                    assert(c[a] == original[a2]);
                }
                assert forall|a: int| 0 <= a < c.len() implies #[trigger] c[a].0 != client_id by {
                    let a2 = if a < i { a } else { a + 1 };
                    assert(c[a] == original[a2]);
                    assert(a2 != i as int);
                }
                assert(original[i as int].0 == client_id);
            }
        }
        self.clients = clients;
    }
}

/// A reply queue of a client must hold at least one message.
pub fn check_reply_queue_size(client_receive_queue_size: usize) -> (r: Result<(), FreeRtosError>)
    ensures
        client_receive_queue_size == 0 ==> r == Err::<(), FreeRtosError>(
            FreeRtosError::InvalidQueueSize,
        ),
        client_receive_queue_size != 0 ==> r == Ok::<(), FreeRtosError>(()),
{
    if client_receive_queue_size == 0 {
        return Err(FreeRtosError::InvalidQueueSize);
    }
    Ok(())
}

/// What the processor does next while it replies to a received message.
#[derive(Debug, PartialEq, Eq)]
pub enum ReplyStep {
    /// Lock the client registry and look up the live client with this id.
    LockAndFind { client_id: usize },
    /// Send the reply to the client that was found.
    Send,
    /// The reply is over: whether it was sent, or the error that stopped it.
    Done(Result<bool, FreeRtosError>),
}

/// The first step of a reply to a message that names `client_id`, if any: a message
/// that names no client gets no reply, and nothing is locked.
pub fn reply_first(client_id: Option<usize>) -> (s: ReplyStep)
    ensures
        client_id is None ==> s == ReplyStep::Done(Ok(false)),
        client_id matches Some(id) ==> s == (ReplyStep::LockAndFind { client_id: id }),
{
    match client_id {
        Some(id) => ReplyStep::LockAndFind { client_id: id },
        None => ReplyStep::Done(Ok(false)),
    }
}

/// The step after locking the registry (`lock`) and looking the client up (`found`:
/// it is registered and still alive): a failed lock ends the reply with its error, a
/// client that is gone gets no reply.
pub fn reply_after_lookup(lock: Result<(), FreeRtosError>, found: bool) -> (s: ReplyStep)
    ensures
        lock matches Err(e) ==> s == ReplyStep::Done(Err(e)),
        lock is Ok && !found ==> s == ReplyStep::Done(Ok(false)),
        lock is Ok && found ==> s == ReplyStep::Send,
{
    match lock {
        Err(e) => ReplyStep::Done(Err(e)),
        Ok(()) => {
            if found {
                ReplyStep::Send
            } else {
                ReplyStep::Done(Ok(false))
            }
        },
    }
}

/// The step after sending the reply: it ends with `true`, or with the send's error.
pub fn reply_after_send(sent: Result<(), FreeRtosError>) -> (s: ReplyStep)
    ensures
        sent matches Err(e) ==> s == ReplyStep::Done(Err(e)),
        sent is Ok ==> s == ReplyStep::Done(Ok(true)),
{
    match sent {
        Err(e) => ReplyStep::Done(Err(e)),
        Ok(()) => ReplyStep::Done(Ok(true)),
    }
}

/// Whether a client can send to its processor: the processor's queue is still
/// there (`alive`), or the processor has shut down.
pub fn send_target(alive: bool) -> (r: Result<(), FreeRtosError>)
    ensures
        alive ==> r == Ok::<(), FreeRtosError>(()),
        !alive ==> r == Err::<(), FreeRtosError>(FreeRtosError::ProcessorHasShutDown),
{
    if alive {
        Ok(())
    } else {
        Err(FreeRtosError::ProcessorHasShutDown)
    }
}

/// What the processor does next while it registers a client that waits for replies.
#[derive(Debug, PartialEq, Eq)]
pub enum NewClientStep {
    /// Lock the client registry.
    Lock,
    /// Create the client's reply queue, the registry being locked.
    CreateQueue,
    /// Register the client under the registry's next id.
    Register,
    /// Registration failed with this error.
    Failed(FreeRtosError),
}

/// The first step of registering a client with a reply queue of the given size: the
/// size is checked before anything is locked.
pub fn new_client_first(client_receive_queue_size: usize) -> (s: NewClientStep)
    ensures
        client_receive_queue_size == 0 ==> s == NewClientStep::Failed(
            FreeRtosError::InvalidQueueSize,
        ),
        client_receive_queue_size != 0 ==> s == NewClientStep::Lock,
{
    match check_reply_queue_size(client_receive_queue_size) {
        Err(e) => NewClientStep::Failed(e),
        Ok(()) => NewClientStep::Lock,
    }
}

/// The step after locking the registry.
pub fn new_client_after_lock(lock: Result<(), FreeRtosError>) -> (s: NewClientStep)
    ensures
        lock matches Err(e) ==> s == NewClientStep::Failed(e),
        lock is Ok ==> s == NewClientStep::CreateQueue,
{
    match lock {
        Err(e) => NewClientStep::Failed(e),
        Ok(()) => NewClientStep::CreateQueue,
    }
}

/// The step after creating the reply queue: the client is registered only once its
/// queue exists.
pub fn new_client_after_queue(queue: Result<(), FreeRtosError>) -> (s: NewClientStep)
    ensures
        queue matches Err(e) ==> s == NewClientStep::Failed(e),
        queue is Ok ==> s == NewClientStep::Register,
{
    match queue {
        Err(e) => NewClientStep::Failed(e),
        Ok(()) => NewClientStep::Register,
    }
}

/// A request with a reply names the client that sent it, and carries its value;
/// plain requests and replies name no client.
pub proof fn lemma_reply_routing<T: Copy>(val: T, client_id: usize)
    ensures
        (Message::RequestWithReply { val, client_id }).reply_client() == Some(client_id),
        (Message::Request { val }).reply_client() == None::<usize>,
        (Message::Reply { val }).reply_client() == None::<usize>,
        message_val(Message::RequestWithReply { val, client_id }) == val,
        message_val(Message::Request { val }) == val,
        message_val(Message::Reply { val }) == val,
{
}

/// A client that registers is found under its id afterwards, with its own handle,
/// and the clients registered before it are found as before.
pub proof fn lemma_registered_client_is_found<H>(
    clients: Seq<(usize, H)>,
    next_id: usize,
    handle: H,
    other: usize,
)
    requires
        registry_wf(clients, next_id),
        next_id < usize::MAX,
    ensures
        registry_wf(clients.push((next_id, handle)), (next_id + 1) as usize),
        has_client(clients.push((next_id, handle)), next_id),
        forall|i: int|
            0 <= i < clients.len() + 1 && #[trigger] clients.push((next_id, handle))[i].0
                == next_id ==> clients.push((next_id, handle))[i] == (next_id, handle),
        other != next_id ==> (has_client(clients.push((next_id, handle)), other) <==> has_client(
            clients,
            other,
        )),
{
    let c = clients.push((next_id, handle));
    assert(c[clients.len() as int].0 == next_id);
    assert forall|i: int| 0 <= i < clients.len() + 1 && #[trigger] c[i].0 == next_id implies c[i]
        == (next_id, handle) by {
        if i < clients.len() {
            assert(c[i] == clients[i]);
        }
    }
    assert forall|i: int, j: int|
        0 <= i < c.len() && 0 <= j < c.len() && i != j implies #[trigger] c[i].0 != #[trigger] c[j].0 by {
        if i < clients.len() {
            assert(c[i] == clients[i]);
        }
        if j < clients.len() {
            assert(c[j] == clients[j]);
        }
    }
    assert forall|i: int| 0 <= i < c.len() implies 1 <= #[trigger] c[i].0 < next_id + 1 by {
        if i < clients.len() {
            assert(c[i] == clients[i]);
        }
    }
    if other != next_id {
        if has_client(c, other) {
            let i = choose|i: int| 0 <= i < c.len() && #[trigger] c[i].0 == other;
            assert(clients[i].0 == other);
        }
        if has_client(clients, other) {
            let i = choose|i: int| 0 <= i < clients.len() && #[trigger] clients[i].0 == other;
            assert(c[i].0 == other);
        }
    }
}

/// Removing a client leaves every other client registered as it was.
pub proof fn lemma_remove_keeps_others<H>(clients: Seq<(usize, H)>, i: int, other: usize)
    requires
        0 <= i < clients.len(),
        ids_unique(clients),
        clients[i].0 != other,
    ensures
        has_client(clients.remove(i), other) <==> has_client(clients, other),
        !has_client(clients.remove(i), clients[i].0),
{
    let c = clients.remove(i);
    if has_client(c, other) {
        let k = choose|k: int| 0 <= k < c.len() && #[trigger] c[k].0 == other;
        let k2 = if k < i { k } else { k + 1 };
        assert(clients[k2].0 == other);
    }
    if has_client(clients, other) {
        let k = choose|k: int| 0 <= k < clients.len() && #[trigger] clients[k].0 == other;
        assert(k != i);
        let k2 = if k < i { k } else { k - 1 };
        assert(c[k2].0 == other);
    }
    if has_client(c, clients[i].0) {
        let k = choose|k: int| 0 <= k < c.len() && #[trigger] c[k].0 == clients[i].0;
        let k2 = if k < i { k } else { k + 1 };
        assert(clients[k2].0 == clients[i].0);
    }
}

} // verus!
