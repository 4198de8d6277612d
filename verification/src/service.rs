//! The application service: the stable internal boundary between the tool
//! surface and the record store. Today it delegates unchanged; business
//! rules would attach here without touching the tool surface's contract.

use vstd::prelude::*;

use crate::error::DbError;
use crate::models::Application;
use crate::store::{create_post, delete_post, get_by_name_post, get_post, list_post, migrated,
    store_wf, Database, StoreModel};

verus! {

/// The service boundary over the record store.
pub struct ApplicationService {
    db: Database,
}

impl View for ApplicationService {
    type V = StoreModel;

    closed spec fn view(&self) -> StoreModel {
        self.db@
    }
}

impl ApplicationService {
    /// Wraps a store as the service boundary.
    pub fn new(db: Database) -> (r: ApplicationService)
        ensures
            r@ == db@,
    {
        ApplicationService { db }
    }

    /// Creates a new application; validation, uniqueness and the persisted
    /// record come from the store unchanged.
    pub fn create_app(&mut self, name: String) -> (r: Result<Application, DbError>)
        requires
            store_wf(old(self)@),
            migrated(old(self)@),
        ensures
            store_wf(final(self)@),
            migrated(final(self)@),
            create_post(old(self)@, final(self)@, name@, r),
    {
        self.db.create(name.as_str())
    }

    /// Looks an application up by id.
    pub fn get_app(&self, id: &str) -> (r: Result<Option<Application>, DbError>)
        requires
            store_wf(self@),
            migrated(self@),
        ensures
            get_post(self@, id@, r),
    {
        self.db.get(id)
    }

    /// Looks an application up by name.
    pub fn get_app_by_name(&self, name: &str) -> (r: Result<Option<Application>, DbError>)
        requires
            store_wf(self@),
            migrated(self@),
        ensures
            get_by_name_post(self@, name@, r),
    {
        self.db.get_by_name(name)
    }

    /// Lists all applications in the listing order.
    pub fn list_apps(&self) -> (r: Result<Vec<Application>, DbError>)
        requires
            store_wf(self@),
            migrated(self@),
        ensures
            list_post(self@, r),
    {
        self.db.list()
    }

    /// Deletes an application by id, reporting whether one was removed.
    pub fn delete_app(&mut self, id: &str) -> (r: Result<bool, DbError>)
        requires
            store_wf(old(self)@),
            migrated(old(self)@),
        ensures
            store_wf(final(self)@),
            migrated(final(self)@),
            delete_post(old(self)@, final(self)@, id@, r),
    {
        self.db.delete(id)
    }
}

} // verus!
