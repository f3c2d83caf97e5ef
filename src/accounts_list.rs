use vstd::prelude::*;

verus! {

/// One row of the account list shown by a user interface.
#[derive(Clone, Debug, Default)]
pub struct AccountsItem {
    pub bank: String,
    pub id: i32,
    pub name: String,
}

/// The rows of the account list, edited in place by index.
pub struct Accounts {
    pub list: Vec<AccountsItem>,
}

impl Accounts {
    pub fn new(list: Vec<AccountsItem>) -> (r: Accounts)
        ensures
            r.list@ == list@,
    {
        Accounts { list }
    }

    pub fn row_count(&self) -> (r: usize)
        ensures
            r == self.list@.len(),
    {
        self.list.len()
    }

    pub fn bank(&self, index: usize) -> (r: &str)
        requires
            index < self.list@.len(),
        ensures
            r@ == self.list@[index as int].bank@,
    {
        self.list[index].bank.as_str()
    }

    pub fn set_bank(&mut self, index: usize, v: String) -> (r: bool)
        requires
            index < old(self).list@.len(),
        ensures
            r,
            final(self).list@ == old(self).list@.update(
                index as int,
                AccountsItem { bank: v, ..old(self).list@[index as int] },
            ),
    {
        let item = AccountsItem { bank: v, id: self.list[index].id, name: self.list[index].name.clone() };
        self.list.set(index, item);
        true
    }

    pub fn set_id(&mut self, index: usize, v: i32) -> (r: bool)
        requires
            index < old(self).list@.len(),
        ensures
            r,
            final(self).list@ == old(self).list@.update(
                index as int,
                AccountsItem { id: v, ..old(self).list@[index as int] },
            ),
    {
        let item = AccountsItem { bank: self.list[index].bank.clone(), id: v, name: self.list[index].name.clone() };
        self.list.set(index, item);
        true
    }

    pub fn set_name(&mut self, index: usize, v: String) -> (r: bool)
        requires
            index < old(self).list@.len(),
        ensures
            r,
            final(self).list@ == old(self).list@.update(
                index as int,
                AccountsItem { name: v, ..old(self).list@[index as int] },
            ),
    {
        let item = AccountsItem { bank: self.list[index].bank.clone(), id: self.list[index].id, name: v };
        self.list.set(index, item);
        true
    }

    pub fn id(&self, index: usize) -> (r: i32)
        requires
            index < self.list@.len(),
        ensures
            r == self.list@[index as int].id,
    {
        self.list[index].id
    }

    pub fn name(&self, index: usize) -> (r: &str)
        requires
            index < self.list@.len(),
        ensures
            r@ == self.list@[index as int].name@,
    {
        self.list[index].name.as_str()
    }
}

} // verus!
