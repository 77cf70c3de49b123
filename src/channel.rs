//! An in-memory notification channel.
//!
//! Notifications are posted under fresh references, have their footer
//! edited, and are deleted; deleting a reference that is gone reports
//! `NotFound` and changes nothing.
use crate::notify::Notification;
use vstd::prelude::*;

verus! {

/// Why the channel refused a request.
#[derive(Clone, Copy, Debug, PartialEq, Eq)]
pub enum ChannelError {
    /// No live notification has this reference.
    NotFound,
    /// The channel has no fresh reference left.
    Exhausted,
    /// The channel refused the request for want of permission.
    Forbidden,
}

/// A live notification under its reference.
pub struct Posted {
    pub notification_ref: u64,
    pub note: Notification,
}

/// The notification with its footer replaced.
pub open spec fn with_footer(n: Notification, footer: String) -> Notification {
    Notification { footer, ..n }
}

/// A channel whose live notifications are kept in memory.
pub struct Board {
    posted: Vec<Posted>,
    next_ref: u64,
    live: Ghost<Map<u64, Notification>>,
}

impl View for Board {
    type V = Map<u64, Notification>;

    closed spec fn view(&self) -> Map<u64, Notification> {
        self.live@
    }
}

impl Board {
    /// References are unique, below the next fresh one, and exactly the view.
    pub closed spec fn wf(&self) -> bool {
        &&& forall|i: int, j: int|
            0 <= i < j < self.posted@.len() ==> self.posted@[i].notification_ref
                != self.posted@[j].notification_ref
        &&& forall|i: int|
            0 <= i < self.posted@.len() ==> #[trigger] self.live@.contains_key(
                self.posted@[i].notification_ref,
            ) && self.live@[self.posted@[i].notification_ref] == self.posted@[i].note
        &&& forall|k: u64|
            #[trigger] self.live@.contains_key(k) ==> exists|i: int|
                0 <= i < self.posted@.len() && self.posted@[i].notification_ref == k
        &&& forall|k: u64| #[trigger] self.live@.contains_key(k) ==> k < self.next_ref
    }

    /// Whether the channel has run out of fresh references.
    pub closed spec fn exhausted(&self) -> bool {
        self.next_ref == u64::MAX
    }

    /// A channel with no notification.
    pub fn new() -> (r: Self)
        ensures
            r.wf(),
            r@ == Map::<u64, Notification>::empty(),
            !r.exhausted(),
    {
        Board { posted: Vec::new(), next_ref: 1, live: Ghost(Map::empty()) }
    }

    /// The number of live notifications.
    pub fn len(&self) -> (r: usize)
        requires
            self.wf(),
        ensures
            r == self@.len(),
    {
        proof {
            let refs = Seq::new(self.posted@.len(), |i: int| self.posted@[i].notification_ref);
            assert(refs.no_duplicates());
            assert(self@.dom() =~= refs.to_set()) by {
                assert forall|k: u64| self@.dom().contains(k) implies refs.to_set().contains(k) by {
                    let i = choose|i: int|
                        0 <= i < self.posted@.len() && self.posted@[i].notification_ref == k;
                    assert(refs[i] == k);
                }
                assert forall|k: u64| refs.to_set().contains(k) implies self@.dom().contains(k) by {
                    let i = choose|i: int| 0 <= i < refs.len() && refs[i] == k;
                    assert(self.live@.contains_key(self.posted@[i].notification_ref));
                }
            }
            refs.unique_seq_to_set();
        }
        self.posted.len()
    }

    fn find(&self, notification_ref: u64) -> (r: Option<usize>)
        requires
            self.wf(),
        ensures
            match r {
                Some(i) => i < self.posted@.len() && self.posted@[i as int].notification_ref
                    == notification_ref,
                None => !self@.contains_key(notification_ref),
            },
    {
        let mut i: usize = 0;
        while i < self.posted.len()
            invariant
                self.wf(),
                i <= self.posted@.len(),
                forall|j: int| 0 <= j < i ==> self.posted@[j].notification_ref != notification_ref,
            decreases self.posted@.len() - i,
        {
            if self.posted[i].notification_ref == notification_ref {
                return Some(i);
            }
            i = i + 1;
        }
        None
    }

    /// Posts `note` under a fresh reference.
    pub fn post(&mut self, note: Notification) -> (r: Result<u64, ChannelError>)
        requires
            old(self).wf(),
        ensures
            final(self).wf(),
            old(self).exhausted() ==> r == Err::<u64, ChannelError>(ChannelError::Exhausted) && final(self)@
                == old(self)@,
            !old(self).exhausted() ==> (r matches Ok(c) && !old(self)@.contains_key(c) && final(self)@
                == old(self)@.insert(c, note)),
    {
        if self.next_ref == u64::MAX {
            return Err(ChannelError::Exhausted);
        }
        let c = self.next_ref;
        let ghost n = self.posted@.len();
        let ghost g = note;
        proof {
            assert forall|j: int| 0 <= j < n implies self.posted@[j].notification_ref != c by {
                assert(self.live@.contains_key(self.posted@[j].notification_ref));
            }
        }
        self.posted.push(Posted { notification_ref: c, note });
        self.next_ref = c + 1;
        self.live = Ghost(self.live@.insert(c, g));
        assert forall|k: u64| #[trigger] self.live@.contains_key(k) implies exists|j: int|
            0 <= j < self.posted@.len() && self.posted@[j].notification_ref == k by {
            if k != c {
                let j = choose|j: int|
                    0 <= j < old(self).posted@.len() && old(self).posted@[j].notification_ref == k;
                assert(self.posted@[j].notification_ref == k);
            } else {
                assert(self.posted@[n as int].notification_ref == k);
            }
        }
        assert forall|j: int| 0 <= j < self.posted@.len() implies #[trigger] self.live@.contains_key(
            self.posted@[j].notification_ref,
        ) && self.live@[self.posted@[j].notification_ref] == self.posted@[j].note by {
            if j != n {
                assert(old(self).posted@[j] == self.posted@[j]);
                assert(old(self).live@.contains_key(old(self).posted@[j].notification_ref));
            }
        }
        Ok(c)
    }

    /// The live notification under `notification_ref`.
    pub fn get(&self, notification_ref: u64) -> (r: Option<&Notification>)
        requires
            self.wf(),
        ensures
            !self@.contains_key(notification_ref) ==> r is None,
            self@.contains_key(notification_ref) ==> r == Some(&self@[notification_ref]),
    {
        match self.find(notification_ref) {
            Some(i) => {
                proof {
                    assert(self.live@.contains_key(self.posted@[i as int].notification_ref));
                }
                Some(&self.posted[i].note)
            },
            None => None,
        }
    }

    /// Replaces the footer of the notification under `notification_ref`;
    /// everything else in it stays as it was.
    pub fn edit_footer(&mut self, notification_ref: u64, footer: String) -> (r: Result<(), ChannelError>)
        requires
            old(self).wf(),
        ensures
            final(self).wf(),
            final(self).exhausted() == old(self).exhausted(),
            !old(self)@.contains_key(notification_ref) ==> r == Err::<(), ChannelError>(
                ChannelError::NotFound,
            ) && final(self)@ == old(self)@,
            old(self)@.contains_key(notification_ref) ==> r is Ok && final(self)@ == old(self)@.insert(
                notification_ref,
                with_footer(old(self)@[notification_ref], footer),
            ),
    {
        match self.find(notification_ref) {
            None => Err(ChannelError::NotFound),
            Some(i) => {
                proof {
                    assert(self.live@.contains_key(self.posted@[i as int].notification_ref));
                }
                let ghost f = footer;
                self.posted[i].note.footer = footer;
                self.live = Ghost(self.live@.insert(notification_ref, self.posted@[i as int].note));
                assert(self.posted@[i as int].note == with_footer(old(self)@[notification_ref], f));
                assert forall|k: u64| #[trigger] self.live@.contains_key(k) implies exists|j: int|
                    0 <= j < self.posted@.len() && self.posted@[j].notification_ref == k by {
                    if k != notification_ref {
                        let j = choose|j: int|
                            0 <= j < old(self).posted@.len() && old(self).posted@[j].notification_ref == k;
                        assert(self.posted@[j].notification_ref == k);
                    } else {
                        assert(self.posted@[i as int].notification_ref == k);
                    }
                }
                assert forall|j: int|
                    0 <= j < self.posted@.len() implies #[trigger] self.live@.contains_key(
                    self.posted@[j].notification_ref,
                ) && self.live@[self.posted@[j].notification_ref] == self.posted@[j].note by {
                    if j != i {
                        assert(old(self).posted@[j] == self.posted@[j]);
                        assert(old(self).live@.contains_key(old(self).posted@[j].notification_ref));
                    }
                }
                Ok(())
            },
        }
    }

    /// Deletes the notification under `notification_ref`. A reference that
    /// is not live gives `NotFound` and changes nothing, so a second delete
    /// of one reference finds it already gone.
    pub fn delete(&mut self, notification_ref: u64) -> (r: Result<(), ChannelError>)
        requires
            old(self).wf(),
        ensures
            final(self).wf(),
            final(self).exhausted() == old(self).exhausted(),
            !old(self)@.contains_key(notification_ref) ==> r == Err::<(), ChannelError>(
                ChannelError::NotFound,
            ) && final(self)@ == old(self)@,
            old(self)@.contains_key(notification_ref) ==> r is Ok && final(self)@ == old(self)@.remove(
                notification_ref,
            ),
    {
        match self.find(notification_ref) {
            None => Err(ChannelError::NotFound),
            Some(i) => {
                let _gone = self.posted.remove(i);
                self.live = Ghost(self.live@.remove(notification_ref));
                assert forall|k: u64| #[trigger] self.live@.contains_key(k) implies exists|j: int|
                    0 <= j < self.posted@.len() && self.posted@[j].notification_ref == k by {
                    let j = choose|j: int|
                        0 <= j < old(self).posted@.len() && old(self).posted@[j].notification_ref == k;
                    if j < i {
                        assert(self.posted@[j].notification_ref == k);
                    } else {
                        assert(j != i);
                        assert(self.posted@[j - 1].notification_ref == k);
                    }
                }
                assert forall|j: int|
                    0 <= j < self.posted@.len() implies #[trigger] self.live@.contains_key(
                    self.posted@[j].notification_ref,
                ) && self.live@[self.posted@[j].notification_ref] == self.posted@[j].note by {
                    let oj = if j < i { j } else { j + 1 };
                    assert(old(self).posted@[oj] == self.posted@[j]);
                    assert(old(self).live@.contains_key(old(self).posted@[oj].notification_ref));
                    assert(old(self).posted@[oj].notification_ref != notification_ref);
                }
                Ok(())
            },
        }
    }
}

} // verus!
