//! Access to what only an administrator may see: a check that can be
//! forgotten, and a witness that cannot.
use vstd::prelude::*;

verus! {

/// Status for a request that was served.
pub const STATUS_OK: u32 = 200;

/// Status for a request that was refused.
pub const STATUS_DENIED: u32 = 400;

/// Somebody who uses the system.
pub struct User {
    pub id: u32,
}

/// Proof that a user is an administrator: it can only be had from [`as_admin`].
pub struct Admin(User);

/// What asking for administrator rights gives.
pub enum MaybeAdmin {
    Admin(Admin),
    Denied,
}

impl Admin {
    /// The user who was found to be an administrator.
    pub closed spec fn user_id(&self) -> u32 {
        self.0.id
    }
}

/// Whether the user with this number is an administrator: only number 0 is.
pub open spec fn admin_id(id: u32) -> bool {
    id == 0
}

/// Whether `user` is an administrator.
pub fn is_admin(user: &User) -> (b: bool)
    ensures
        b == admin_id(user.id),
{
    user.id == 0
}

/// Turns an administrator into a witness of that; everybody else is denied.
pub fn as_admin(user: User) -> (res: MaybeAdmin)
    ensures
        match res {
            MaybeAdmin::Admin(admin) => admin_id(user.id) && admin.user_id() == user.id,
            MaybeAdmin::Denied => !admin_id(user.id),
        },
{
    if is_admin(&user) {
        MaybeAdmin::Admin(Admin(user))
    } else {
        MaybeAdmin::Denied
    }
}

/// Serves the dashboard to an administrator.
pub fn admin_dashboard(user: User) -> (status: u32)
    ensures
        status == if admin_id(user.id) {
            STATUS_OK
        } else {
            STATUS_DENIED
        },
{
    if !is_admin(&user) {
        return STATUS_DENIED;
    }
    STATUS_OK
}

/// Serves the database to an administrator.
pub fn admin_database(user: User) -> (status: u32)
    ensures
        status == if admin_id(user.id) {
            STATUS_OK
        } else {
            STATUS_DENIED
        },
{
    match as_admin(user) {
        MaybeAdmin::Admin(_) => STATUS_OK,
        MaybeAdmin::Denied => STATUS_DENIED,
    }
}

} // verus!
