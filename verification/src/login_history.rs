use vstd::prelude::*;
use crate::user::CredentialStore;
use crate::text::str_eq;

verus! {

/// One append-only audit record: who logged in, and when (seconds since the
/// Unix epoch).  Written on every successful signup and login; never read
/// back by the core.
pub struct LoginHistory {
    pub user_id: i32,
    pub login_timestamp: u64,
}

/// A history row ready to be appended.
pub struct LoginHistoryInsertableDTO {
    pub user_id: i32,
    pub login_timestamp: u64,
}

impl LoginHistory {
    /// Builds the audit record for the account with the given username.
    pub fn create(un: &str, store: &CredentialStore, now: u64) -> (r: Option<
        LoginHistoryInsertableDTO,
    >)
        ensures
            r is Some <==> store.has_username(un@),
            r matches Some(d) ==> d.login_timestamp == now && exists|i: int|
                0 <= i < store.users_view().len() && #[trigger] store.users_view()[i].username
                    == un@ && store.users_view()[i].id == d.user_id,
    {
        let n = store.users.len();
        let mut i: usize = 0;
        while i < n
            invariant
                n == store.users@.len(),
                0 <= i <= n,
                forall|j: int| 0 <= j < i ==> #[trigger] store.users_view()[j].username != un@,
            decreases n - i,
        {
            if str_eq(store.users[i].username.as_str(), un) {
                assert(store.users_view()[i as int].username == un@);
                return Some(
                    LoginHistoryInsertableDTO {
                        user_id: store.users[i].id,
                        login_timestamp: now,
                    },
                );
            }
            i += 1;
        }
        assert(forall|i: int|
            0 <= i < store.users_view().len() ==> #[trigger] store.users_view()[i].username
                != un@);
        None
    }

    /// Appends the record to the audit trail.
    pub fn save_login_history(insert_record: LoginHistoryInsertableDTO, store: &mut CredentialStore)
        ensures
            final(store).history@ == old(store).history@.push(
                LoginHistory {
                    user_id: insert_record.user_id,
                    login_timestamp: insert_record.login_timestamp,
                },
            ),
            final(store).users == old(store).users,
            final(store).next_user_id == old(store).next_user_id,
    {
        store.history.push(
            LoginHistory {
                user_id: insert_record.user_id,
                login_timestamp: insert_record.login_timestamp,
            },
        );
    }
}

} // verus!
