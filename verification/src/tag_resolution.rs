//! Symbol resolution: the table that maps label names to an address
//! resolution state.
//!
//! A name enters the table as pending the first time it is referenced, and
//! becomes resolved exactly once, when the label defining it is reached
//! during segment assembly. The table is owned by the assembly run and passed
//! by reference to whoever needs it, so runs stay independent.
//!
//! The table's view is a map from the name's characters to `None` (pending)
//! or `Some(address)` (resolved).

use vstd::prelude::*;

use crate::errors::CompileError;
use crate::strutil::str_eq;

verus! {

/// The value an instruction operand carries before encoding: a literal
/// immediate with an explicit sign flag, a symbol name awaiting resolution,
/// or an already-resolved address.
#[derive(Debug)]
pub enum Tag {
    Imm(u32, bool),
    BuildPending(String),
    Resolved(u32),
}

/// Map described by an association list, later entries overriding earlier
/// ones.
pub open spec fn map_of(s: Seq<(String, Option<u32>)>) -> Map<Seq<char>, Option<u32>>
    decreases s.len(),
{
    if s.len() == 0 {
        Map::empty()
    } else {
        map_of(s.drop_last()).insert(s.last().0@, s.last().1)
    }
}

/// No two entries share a name.
pub open spec fn unique_keys(s: Seq<(String, Option<u32>)>) -> bool {
    forall|i: int, j: int| 0 <= i < j < s.len() ==> (#[trigger] s[i]).0@ != (#[trigger] s[j]).0@
}

/// The symbol table of one assembly run.
pub struct TagContext {
    entries: Vec<(String, Option<u32>)>,
}

impl View for TagContext {
    type V = Map<Seq<char>, Option<u32>>;

    closed spec fn view(&self) -> Map<Seq<char>, Option<u32>> {
        map_of(self.entries@)
    }
}

proof fn lemma_map_of_absent(s: Seq<(String, Option<u32>)>, k: Seq<char>)
    requires
        forall|i: int| 0 <= i < s.len() ==> (#[trigger] s[i]).0@ != k,
    ensures
        !map_of(s).contains_key(k),
    decreases s.len(),
{
    if s.len() > 0 {
        lemma_map_of_absent(s.drop_last(), k);
    }
}

proof fn lemma_map_of_get(s: Seq<(String, Option<u32>)>, i: int)
    requires
        unique_keys(s),
        0 <= i < s.len(),
    ensures
        map_of(s).contains_key(s[i].0@),
        map_of(s)[s[i].0@] == s[i].1,
    decreases s.len(),
{
    if i == s.len() - 1 {
    } else {
        lemma_map_of_get(s.drop_last(), i);
        assert(s[s.len() - 1].0@ != s[i].0@);
    }
}

proof fn lemma_map_of_update(s: Seq<(String, Option<u32>)>, i: int, p: (String, Option<u32>))
    requires
        unique_keys(s),
        0 <= i < s.len(),
        p.0@ == s[i].0@,
    ensures
        map_of(s.update(i, p)) =~= map_of(s).insert(p.0@, p.1),
    decreases s.len(),
{
    let t = s.update(i, p);
    if i == s.len() - 1 {
        assert(t.drop_last() =~= s.drop_last());
        assert(t.last() == p);
    } else {
        lemma_map_of_update(s.drop_last(), i, p);
        assert(t.drop_last() =~= s.drop_last().update(i, p));
        assert(t.last() == s.last());
        assert(s.last().0@ != s[i].0@);
    }
}

impl TagContext {
    /// Internal well-formedness: entry names are pairwise distinct.
    pub closed spec fn wf(&self) -> bool {
        unique_keys(self.entries@)
    }

    /// Index of the entry holding `name`, if any.
    fn find_idx(&self, name: &str) -> (r: Option<usize>)
        ensures
            match r {
                Some(i) => i < self.entries@.len() && self.entries@[i as int].0@ == name@,
                None => forall|i: int|
                    0 <= i < self.entries@.len() ==> (#[trigger] self.entries@[i]).0@ != name@,
            },
    {
        let n = self.entries.len();
        let mut i: usize = 0;
        while i < n
            invariant
                i <= n,
                n == self.entries@.len(),
                forall|j: int| 0 <= j < i ==> (#[trigger] self.entries@[j]).0@ != name@,
            decreases n - i,
        {
            if str_eq(self.entries[i].0.as_str(), name) {
                return Some(i);
            }
            i += 1;
        }
        None
    }
}

/// A fresh symbol table, with the two segment markers already pending.
pub fn init() -> (ctx: TagContext)
    ensures
        ctx.wf(),
        ctx@ == Map::<Seq<char>, Option<u32>>::empty().insert(".text"@, None).insert(".data"@, None),
{
    proof {
        reveal_strlit(".text");
        reveal_strlit(".data");
        assert(".text"@[1] != ".data"@[1]);
    }
    let mut entries: Vec<(String, Option<u32>)> = Vec::new();
    entries.push((String::from_str(".text"), None));
    entries.push((String::from_str(".data"), None));
    let ctx = TagContext { entries };
    proof {
        let e = ctx.entries@;
        assert(e.drop_last().drop_last() =~= Seq::<(String, Option<u32>)>::empty());
        assert(e.drop_last().last().0@ == ".text"@);
        assert(e.last().0@ == ".data"@);
        assert(map_of(e.drop_last().drop_last()) == Map::<Seq<char>, Option<u32>>::empty());
        assert(map_of(e.drop_last()) == Map::<Seq<char>, Option<u32>>::empty().insert(
            ".text"@,
            None,
        ));
        assert(map_of(e) =~= Map::<Seq<char>, Option<u32>>::empty().insert(".text"@, None).insert(
            ".data"@,
            None,
        ));
    }
    ctx
}

/// Looks `tag` up: a resolved name yields its address, a known pending name
/// stays pending, and an unknown name is inserted as pending. The returned
/// `Tag` mirrors the entry's state after the call.
pub fn log_or_resolve(ctx: &mut TagContext, tag: &str) -> (r: Tag)
    requires
        old(ctx).wf(),
    ensures
        final(ctx).wf(),
        final(ctx)@ == if old(ctx)@.contains_key(tag@) {
            old(ctx)@
        } else {
            old(ctx)@.insert(tag@, None)
        },
        final(ctx)@.contains_key(tag@),
        match r {
            Tag::Resolved(v) => final(ctx)@[tag@] == Some(v),
            Tag::BuildPending(s) => s@ == tag@ && final(ctx)@[tag@] is None,
            Tag::Imm(_, _) => false,
        },
{
    let found = ctx.find_idx(tag);
    match found {
        Some(i) => {
            proof {
                lemma_map_of_get(ctx.entries@, i as int);
            }
            match ctx.entries[i].1 {
                Some(v) => Tag::Resolved(v),
                None => Tag::BuildPending(ctx.entries[i].0.clone()),
            }
        },
        None => {
            proof {
                lemma_map_of_absent(ctx.entries@, tag@);
            }
            let ghost old_entries = ctx.entries@;
            ctx.entries.push((String::from_str(tag), None));
            proof {
                assert(ctx.entries@.drop_last() =~= old_entries);
                lemma_map_of_get(ctx.entries@, ctx.entries@.len() - 1);
            }
            Tag::BuildPending(String::from_str(tag))
        },
    }
}

/// Records `addr` as the definition of `tag`. A name may be defined only
/// once: the caller must not pass a name that is already resolved.
pub fn log_addr(ctx: &mut TagContext, tag: String, addr: u32)
    requires
        old(ctx).wf(),
        old(ctx)@.contains_key(tag@) ==> old(ctx)@[tag@] is None,
    ensures
        final(ctx).wf(),
        final(ctx)@ == old(ctx)@.insert(tag@, Some(addr)),
{
    let found = ctx.find_idx(&tag);
    match found {
        Some(i) => {
            proof {
                lemma_map_of_update(ctx.entries@, i as int, (tag, Some(addr)));
            }
            ctx.entries[i] = (tag, Some(addr));
        },
        None => {
            proof {
                lemma_map_of_absent(ctx.entries@, tag@);
            }
            let ghost old_entries = ctx.entries@;
            ctx.entries.push((tag, Some(addr)));
            proof {
                assert(ctx.entries@.drop_last() =~= old_entries);
            }
        },
    }
}

/// Final address lookup: succeeds exactly when `tag` has been defined, and
/// otherwise reports the unresolved name.
pub fn resolve(ctx: &TagContext, tag: String) -> (r: Result<u32, CompileError>)
    requires
        ctx.wf(),
    ensures
        match r {
            Ok(addr) => ctx@.contains_key(tag@) && ctx@[tag@] == Some(addr),
            Err(e) => (!ctx@.contains_key(tag@) || ctx@[tag@] is None) && e
                == CompileError::TagResolution(tag),
        },
{
    let found = ctx.find_idx(&tag);
    match found {
        Some(i) => {
            proof {
                lemma_map_of_get(ctx.entries@, i as int);
            }
            match ctx.entries[i].1 {
                Some(v) => Ok(v),
                None => Err(CompileError::TagResolution(tag)),
            }
        },
        None => {
            proof {
                lemma_map_of_absent(ctx.entries@, tag@);
            }
            Err(CompileError::TagResolution(tag))
        },
    }
}

} // verus!
