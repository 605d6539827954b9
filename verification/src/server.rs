//! The registry of live workspaces, and the lookup every call by id goes
//! through.
use vstd::prelude::*;
use crate::error::WorkspaceError;
use crate::provider::WorkspaceContext;
use crate::text::same_text;
use crate::trusted::{fresh_uuid, is_uuid_text};

verus! {

/// The first workspace registered under `id`, if there is one.
pub open spec fn found<C>(entries: Seq<(Seq<char>, C)>, id: Seq<char>) -> Option<C>
    decreases entries.len(),
{
    if entries.len() == 0 {
        None
    } else if entries[0].0 == id {
        Some(entries[0].1)
    } else {
        found(entries.drop_first(), id)
    }
}

/// The entries without those registered under `id`.
pub open spec fn without<C>(entries: Seq<(Seq<char>, C)>, id: Seq<char>) -> Seq<(Seq<char>, C)>
    decreases entries.len(),
{
    if entries.len() == 0 {
        entries
    } else if entries[0].0 == id {
        without(entries.drop_first(), id)
    } else {
        seq![entries[0]] + without(entries.drop_first(), id)
    }
}

/// The ids of the entries, in their order.
pub open spec fn ids_of<C>(entries: Seq<(Seq<char>, C)>) -> Seq<Seq<char>> {
    Seq::new(entries.len(), |i: int| entries[i].0)
}

/// No two entries share an id.
pub open spec fn ids_distinct<C>(entries: Seq<(Seq<char>, C)>) -> bool {
    forall|i: int, j: int| 0 <= i < j < entries.len() ==> entries[i].0 != entries[j].0
}

/// Taking an entry out leaves the others distinct.
pub proof fn lemma_removal_keeps_distinct<C>(entries: Seq<(Seq<char>, C)>, i: int)
    requires
        ids_distinct(entries),
        0 <= i < entries.len(),
    ensures
        ids_distinct(entries.remove(i)),
{
    let fewer = entries.remove(i);
    assert forall|a: int, b: int| 0 <= a < b < fewer.len() implies fewer[a].0 != fewer[b].0 by {
        let a0 = if a < i { a } else { a + 1 };
        let b0 = if b < i { b } else { b + 1 };
        assert(fewer[a] == entries[a0]);
        assert(fewer[b] == entries[b0]);
    }
}

/// What is left once an id is taken out holds no entry with that id.
pub proof fn lemma_without_holds_no_id<C>(entries: Seq<(Seq<char>, C)>, id: Seq<char>, k: int)
    requires
        0 <= k < without(entries, id).len(),
    ensures
        without(entries, id)[k].0 != id,
    decreases entries.len(),
{
    if entries.len() > 0 {
        let rest = without(entries.drop_first(), id);
        if entries[0].0 == id {
            lemma_without_holds_no_id(entries.drop_first(), id, k);
        } else {
            let kept = seq![entries[0]] + rest;
            if k == 0 {
                assert(kept[0] == entries[0]);
            } else {
                assert(kept[k] == rest[k - 1]);
                lemma_without_holds_no_id(entries.drop_first(), id, k - 1);
            }
        }
    }
}

/// What a call answers for an id that is not registered.
pub open spec fn not_found_text(id: Seq<char>) -> Seq<char> {
    "Workspace not found: "@ + id
}

/// Once an id is taken out, nothing is found under it, and what is found
/// under any other id is what was found before.
pub proof fn lemma_destroyed_is_not_found<C>(
    entries: Seq<(Seq<char>, C)>,
    id: Seq<char>,
    other: Seq<char>,
)
    ensures
        found(without(entries, id), id) is None,
        other != id ==> found(without(entries, id), other) == found(entries, other),
    decreases entries.len(),
{
    if entries.len() > 0 {
        lemma_destroyed_is_not_found(entries.drop_first(), id, other);
        if entries[0].0 != id {
            let rest = without(entries.drop_first(), id);
            let kept = seq![entries[0]] + rest;
            assert(kept[0] == entries[0]);
            assert(kept.drop_first() =~= rest);
        }
    }
}

/// A workspace is found under the id it was registered with, whatever was
/// registered before.
pub proof fn lemma_registered_is_found<C>(entries: Seq<(Seq<char>, C)>, id: Seq<char>, c: C)
    ensures
        found(without(entries, id).push((id, c)), id) == Some(c),
{
    lemma_destroyed_is_not_found(entries, id, id);
    lemma_found_in_pushed(without(entries, id), id, c, id);
}

/// Registering under one id leaves what is found under another unchanged.
pub proof fn lemma_registered_keeps_others<C>(
    entries: Seq<(Seq<char>, C)>,
    id: Seq<char>,
    c: C,
    other: Seq<char>,
)
    requires
        other != id,
    ensures
        found(without(entries, id).push((id, c)), other) == found(entries, other),
{
    lemma_destroyed_is_not_found(entries, id, other);
    lemma_found_in_pushed(without(entries, id), id, c, other);
}

/// What is found after one more entry went to the end: what was found
/// before, or the new entry where nothing was and the id is the new one.
pub proof fn lemma_found_in_pushed<C>(
    entries: Seq<(Seq<char>, C)>,
    id: Seq<char>,
    c: C,
    wanted: Seq<char>,
)
    ensures
        found(entries.push((id, c)), wanted) == match found(entries, wanted) {
            Some(x) => Some(x),
            None => if wanted == id {
                Some(c)
            } else {
                None
            },
        },
    decreases entries.len(),
{
    let longer = entries.push((id, c));
    if entries.len() == 0 {
        assert(longer[0] == (id, c));
        assert(longer.drop_first() =~= entries);
    } else {
        assert(longer[0] == entries[0]);
        assert(longer.drop_first() =~= entries.drop_first().push((id, c)));
        lemma_found_in_pushed(entries.drop_first(), id, c, wanted);
    }
}

/// The gateway's state: the recipe workspaces are made from, the provider
/// that makes them, and the workspaces that are alive, each under its id.
pub struct Server<P, C> {
    context: WorkspaceContext,
    provider: P,
    workspaces: Vec<(String, C)>,
}

impl<P, C> View for Server<P, C> {
    type V = Seq<(Seq<char>, C)>;

    /// The live workspaces with their ids, oldest first.
    closed spec fn view(&self) -> Seq<(Seq<char>, C)> {
        Seq::new(self.workspaces@.len(), |i: int| (self.workspaces@[i].0@, self.workspaces@[i].1))
    }
}

impl<P, C> Server<P, C> {
    /// The registry is well formed: no two live workspaces share an id.
    /// Every server that `create_server` made is, and stays so.
    pub open spec fn wf(&self) -> bool {
        ids_distinct(self@)
    }

    /// The recipe the server was created with.
    pub closed spec fn context_spec(&self) -> WorkspaceContext {
        self.context
    }

    /// The provider the server was created with.
    pub closed spec fn provider_spec(&self) -> P {
        self.provider
    }

    /// A server without workspaces.
    pub fn create_server(context: WorkspaceContext, provider: P) -> (r: Result<
        Server<P, C>,
        WorkspaceError,
    >)
        ensures
            r matches Ok(server) && server.wf() && server@ == Seq::<(Seq<char>, C)>::empty()
                && server.context_spec() == context && server.provider_spec() == provider,
    {
        let server = Server { context, provider, workspaces: Vec::new() };
        proof {
            assert(server@ =~= Seq::<(Seq<char>, C)>::empty());
        }
        Ok(server)
    }

    /// The recipe workspaces are made from.
    pub fn context(&self) -> (context: &WorkspaceContext)
        ensures
            *context == self.context_spec(),
    {
        &self.context
    }

    /// The provider that makes workspaces.
    pub fn provider(&self) -> (provider: &P)
        ensures
            *provider == self.provider_spec(),
    {
        &self.provider
    }

    /// Takes every entry under `id` out and returns the first one's workspace.
    fn take_out(&mut self, id: &str) -> (taken: Option<C>)
        requires
            old(self).wf(),
        ensures
            final(self).wf(),
            final(self)@ == without(old(self)@, id@),
            taken == found(old(self)@, id@),
            final(self).context_spec() == old(self).context_spec(),
            final(self).provider_spec() == old(self).provider_spec(),
    {
        let ghost orig = self@;
        let mut taken: Option<C> = None;
        let mut i: usize = 0;
        proof {
            assert(self@.take(0) =~= Seq::<(Seq<char>, C)>::empty());
            assert(self@.skip(0) =~= self@);
            assert(Seq::<(Seq<char>, C)>::empty() + without(orig, id@) =~= without(orig, id@));
        }
        while i < self.workspaces.len()
            invariant
                i <= self.workspaces.len(),
                self.wf(),
                self.context_spec() == old(self).context_spec(),
                self.provider_spec() == old(self).provider_spec(),
                without(orig, id@) == self@.take(i as int) + without(self@.skip(i as int), id@),
                found(orig, id@) == match taken {
                    Some(c) => Some(c),
                    None => found(self@.skip(i as int), id@),
                },
            decreases self.workspaces.len() - i,
        {
            let ghost cur = self@;
            let ghost rest = cur.skip(i as int);
            proof {
                assert(rest[0] == cur[i as int]);
                assert(rest.drop_first() =~= cur.skip(i + 1));
            }
            if same_text(self.workspaces[i].0.as_str(), id) {
                let entry = self.workspaces.remove(i);
                proof {
                    assert(self@ =~= cur.remove(i as int));
                    lemma_removal_keeps_distinct(cur, i as int);
                    assert(self@.take(i as int) =~= cur.take(i as int));
                    assert(self@.skip(i as int) =~= cur.skip(i + 1));
                }
                if taken.is_none() {
                    taken = Some(entry.1);
                }
            } else {
                proof {
                    assert(cur.take(i + 1) =~= cur.take(i as int).push(cur[i as int]));
                    assert(cur.take(i as int) + (seq![cur[i as int]] + without(
                        cur.skip(i + 1),
                        id@,
                    )) =~= cur.take(i + 1) + without(cur.skip(i + 1), id@));
                }
                i += 1;
            }
        }
        proof {
            assert(self@.skip(i as int) =~= Seq::<(Seq<char>, C)>::empty());
            assert(self@.take(i as int) =~= self@);
            assert(self@ + Seq::<(Seq<char>, C)>::empty() =~= self@);
        }
        taken
    }

    /// Registers `controller` under `id`. A workspace that was registered
    /// under the same id is taken out and returned.
    pub fn register(&mut self, id: String, controller: C) -> (replaced: Option<C>)
        requires
            old(self).wf(),
        ensures
            final(self).wf(),
            final(self)@ == without(old(self)@, id@).push((id@, controller)),
            replaced == found(old(self)@, id@),
            final(self).context_spec() == old(self).context_spec(),
            final(self).provider_spec() == old(self).provider_spec(),
    {
        let replaced = self.take_out(id.as_str());
        let ghost before = self@;
        self.workspaces.push((id, controller));
        proof {
            assert(self@ =~= before.push((id@, controller)));
            assert forall|i: int, j: int| 0 <= i < j < self@.len() implies self@[i].0
                != self@[j].0 by {
                assert(self@[i] == before[i]);
                if j < before.len() {
                    assert(self@[j] == before[j]);
                } else {
                    lemma_without_holds_no_id(old(self)@, id@, i);
                }
            }
        }
        replaced
    }

    /// Registers a provisioned workspace under a fresh id, 36 hexadecimal
    /// digits and hyphens, and returns the id.
    pub fn create_workspace(&mut self, controller: C) -> (id: String)
        requires
            old(self).wf(),
        ensures
            final(self).wf(),
            is_uuid_text(id@),
            final(self)@ == without(old(self)@, id@).push((id@, controller)),
            found(final(self)@, id@) == Some(controller),
            final(self).context_spec() == old(self).context_spec(),
            final(self).provider_spec() == old(self).provider_spec(),
    {
        let id = fresh_uuid();
        let copy = id.clone();
        proof {
            lemma_registered_is_found(self@, id@, controller);
        }
        self.register(id, controller);
        copy
    }

    /// Takes the workspace under `id` out of the registry and hands it to the
    /// caller, who stops it. `None` means that no workspace had this id.
    pub fn destroy_workspace(&mut self, id: &str) -> (destroyed: Option<C>)
        requires
            old(self).wf(),
        ensures
            final(self).wf(),
            final(self)@ == without(old(self)@, id@),
            destroyed == found(old(self)@, id@),
            found(final(self)@, id@) is None,
            final(self).context_spec() == old(self).context_spec(),
            final(self).provider_spec() == old(self).provider_spec(),
    {
        proof {
            lemma_destroyed_is_not_found(self@, id@, id@);
        }
        self.take_out(id)
    }

    /// The ids of the live workspaces, oldest first.
    pub fn list_workspaces(&self) -> (ids: Vec<String>)
        requires
            self.wf(),
        ensures
            ids.deep_view() == ids_of(self@),
            ids.deep_view().no_duplicates(),
    {
        let mut ids: Vec<String> = Vec::new();
        let mut i: usize = 0;
        while i < self.workspaces.len()
            invariant
                i <= self.workspaces.len(),
                ids.deep_view() == ids_of(self@).take(i as int),
            decreases self.workspaces.len() - i,
        {
            let id = self.workspaces[i].0.clone();
            let ghost before = ids.deep_view();
            let ghost text = id@;
            ids.push(id);
            proof {
                assert(ids.deep_view() =~= before.push(text));
                assert(ids.deep_view() =~= ids_of(self@).take(i + 1));
            }
            i += 1;
        }
        proof {
            assert(ids_of(self@).take(self.workspaces.len() as int) =~= ids_of(self@));
        }
        ids
    }

    /// The workspace that a call by id is routed to, or the error that the
    /// call answers where no workspace has this id.
    pub fn workspace(&self, id: &str) -> (r: Result<&C, WorkspaceError>)
        ensures
            match found(self@, id@) {
                Some(c) => r matches Ok(w) && *w == c,
                None => r matches Err(WorkspaceError::NotFound(m)) && m@ == not_found_text(id@),
            },
    {
        let mut i: usize = 0;
        proof {
            assert(self@.skip(0) =~= self@);
        }
        while i < self.workspaces.len()
            invariant
                i <= self.workspaces.len(),
                found(self@, id@) == found(self@.skip(i as int), id@),
            decreases self.workspaces.len() - i,
        {
            proof {
                let rest = self@.skip(i as int);
                assert(rest[0] == self@[i as int]);
                assert(rest.drop_first() =~= self@.skip(i + 1));
            }
            if same_text(self.workspaces[i].0.as_str(), id) {
                return Ok(&self.workspaces[i].1);
            }
            i += 1;
        }
        let mut text = String::from_str("Workspace not found: ");
        text.append(id);
        Err(WorkspaceError::NotFound(text))
    }
}

} // verus!
