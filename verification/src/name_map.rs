//! Display-name resolution: user id to preferred name, with the sender's
//! own first name as fallback.

use vstd::prelude::*;

verus! {

/// What the runtime reads of a platform user.
pub struct User {
    pub id: i64,
    pub first_name: String,
}

/// Anything a name can be resolved for: a bare user id, or a full user
/// record that also offers a fallback name.
pub trait ToIdOrUser {
    spec fn spec_user_id(&self) -> i64;

    spec fn spec_first_name(&self) -> Option<Seq<char>>;

    fn to_user_id(&self) -> (r: i64)
        ensures
            r == self.spec_user_id(),
    ;

    fn to_user(&self) -> (r: Option<&User>)
        ensures
            (r is Some) == (self.spec_first_name() is Some),
            r matches Some(u) ==> u.id == self.spec_user_id() && Some(u.first_name@)
                == self.spec_first_name(),
    ;
}

impl ToIdOrUser for i64 {
    open spec fn spec_user_id(&self) -> i64 {
        *self
    }

    open spec fn spec_first_name(&self) -> Option<Seq<char>> {
        None
    }

    fn to_user_id(&self) -> (r: i64) {
        *self
    }

    fn to_user(&self) -> (r: Option<&User>) {
        None
    }
}

impl ToIdOrUser for User {
    open spec fn spec_user_id(&self) -> i64 {
        self.id
    }

    open spec fn spec_first_name(&self) -> Option<Seq<char>> {
        Some(self.first_name@)
    }

    fn to_user_id(&self) -> (r: i64) {
        self.id
    }

    fn to_user(&self) -> (r: Option<&User>) {
        Some(self)
    }
}

/// The first mapping for `id`, scanning front to back; later additions are
/// prepended, so the newest mapping wins.
pub open spec fn lookup(s: Seq<(i64, String)>, id: i64) -> Option<Seq<char>>
    decreases s.len(),
{
    if s.len() == 0 {
        None
    } else if s[0].0 == id {
        Some(s[0].1@)
    } else {
        lookup(s.drop_first(), id)
    }
}

/// The id-to-name store.
pub struct NameMap {
    pub names: Vec<(i64, String)>,
}

impl NameMap {
    pub open spec fn spec_get(&self, id: i64) -> Option<Seq<char>> {
        lookup(self.names@, id)
    }

    pub fn new() -> (m: NameMap)
        ensures
            forall|id: i64| m.spec_get(id) is None,
    {
        NameMap { names: Vec::new() }
    }

    /// The display name for `u`: the stored mapping when there is one, the
    /// user's own first name otherwise, and empty for a bare id.
    pub fn get<T: ToIdOrUser>(&self, u: &T) -> (r: String)
        ensures
            r@ == (match self.spec_get(u.spec_user_id()) {
                Some(n) => n,
                None => match u.spec_first_name() {
                    Some(f) => f,
                    None => Seq::<char>::empty(),
                },
            }),
    {
        let id = u.to_user_id();
        let mut k: usize = 0;
        let n = self.names.len();
        proof {
            assert(self.names@.skip(0) =~= self.names@);
        }
        while k < n
            invariant
                k <= n,
                n == self.names@.len(),
                id == u.spec_user_id(),
                lookup(self.names@, id) == lookup(self.names@.skip(k as int), id),
            decreases n - k,
        {
            proof {
                assert(self.names@.skip(k as int).drop_first() =~= self.names@.skip(k + 1));
                assert(self.names@.skip(k as int)[0] == self.names@[k as int]);
            }
            if self.names[k].0 == id {
                proof {
                    assert(lookup(self.names@.skip(k as int), id) == Some(
                        self.names@[k as int].1@,
                    ));
                }
                let nm = self.names[k].1.clone();
                proof {
                    assert(nm@ == self.names@[k as int].1@);
                    assert(self.spec_get(id) == Some(nm@));
                    assert(id == u.spec_user_id());
                }
                return nm;
            }
            k += 1;
        }
        proof {
            assert(self.names@.skip(n as int).len() == 0);
        }
        match u.to_user() {
            Some(user) => user.first_name.clone(),
            None => String::new(),
        }
    }

    /// Map `id` to `name`; an earlier mapping is shadowed by the new one.
    pub fn add_name_map(&mut self, id: i64, name: &str)
        ensures
            final(self).spec_get(id) == Some(name@),
            forall|o: i64| o != id ==> final(self).spec_get(o) == old(self).spec_get(o),
    {
        self.names.insert(0, (id, String::from_str(name)));
        proof {
            assert(self.names@.drop_first() =~= old(self).names@);
            assert(self.names@[0].0 == id);
        }
    }
}

} // verus!
