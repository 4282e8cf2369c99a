//! Window rules: per-client settings matched by class, instance or name.

use vstd::prelude::*;

verus! {

/// A rule for a client: which windows it matches and what it applies
#[derive(Debug)]
pub struct Rule {
    /// Class the rule matches, if any
    pub class: Option<String>,
    /// Instance the rule matches, if any
    pub instance: Option<String>,
    /// Name the rule matches, if any
    pub name: Option<String>,
    /// Whether matched windows float
    pub floating: Option<bool>,
    /// Size applied to matched windows
    pub size: Option<(u16, u16)>,
    /// Position applied to matched windows
    pub pos: Option<(i16, i16)>,
    /// Effect the rule applies
    pub effect: String,
    /// Does the rule apply only once?
    pub one_shot: bool,
    /// Is the rule temporary?
    pub temp: bool,
}

impl Rule {
    /// Create a new, empty [`Rule`]
    pub fn new() -> (r: Self)
        ensures
            r.class is None,
            r.instance is None,
            r.name is None,
            r.floating is None,
            r.size is None,
            r.pos is None,
            r.effect@ == Seq::<char>::empty(),
            !r.one_shot,
            !r.temp,
    {
        Self {
            class: None,
            instance: None,
            name: None,
            floating: None,
            size: None,
            pos: None,
            effect: String::new(),
            one_shot: false,
            temp: false,
        }
    }

    /// Set the class the rule matches
    pub fn set_class(&mut self, class: String)
        ensures
            *final(self) == (Rule { class: Some(class), ..*old(self) }),
    {
        self.class = Some(class);
    }

    /// Set the instance the rule matches
    pub fn set_instance(&mut self, instance: String)
        ensures
            *final(self) == (Rule { instance: Some(instance), ..*old(self) }),
    {
        self.instance = Some(instance);
    }

    /// Set the name the rule matches
    pub fn set_name(&mut self, name: String)
        ensures
            *final(self) == (Rule { name: Some(name), ..*old(self) }),
    {
        self.name = Some(name);
    }

    /// Set whether matched windows float
    pub fn set_floating(&mut self, floating: bool)
        ensures
            *final(self) == (Rule { floating: Some(floating), ..*old(self) }),
    {
        self.floating = Some(floating);
    }

    /// Set the size applied to matched windows
    pub fn set_size(&mut self, size: (u16, u16))
        ensures
            *final(self) == (Rule { size: Some(size), ..*old(self) }),
    {
        self.size = Some(size);
    }

    /// Set the position applied to matched windows
    pub fn set_pos(&mut self, pos: (i16, i16))
        ensures
            *final(self) == (Rule { pos: Some(pos), ..*old(self) }),
    {
        self.pos = Some(pos);
    }
}

} // verus!
