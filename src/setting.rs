use vstd::prelude::*;

use crate::error::Error;
use crate::value::{check_value, is_loosest_type, ConfigurableValue, ConfigurableValueType};

verus! {

/// One named, typed setting with its current value and its default.
///
/// `setting_id` and `default_value` never change once the setting exists;
/// `value` changes only through the setters below while `is_mutable` holds.
#[derive(Debug)]
pub struct SettingManifest {
    pub setting_id: String,
    pub name: String,
    pub description: String,
    pub value: Option<ConfigurableValue>,
    pub value_type: ConfigurableValueType,
    pub default_value: Option<ConfigurableValue>,
    pub is_secret: bool,
    pub is_required: bool,
    pub is_mutable: bool,
}

/// The outcome of setting a value on `s`.
pub open spec fn set_value_result(s: SettingManifest, v: ConfigurableValue) -> Result<(), Error> {
    if !s.is_mutable {
        Err(Error::NotMutable)
    } else {
        check_value(s.value_type, v)
    }
}

/// The outcome of setting an optional value on `s`.
pub open spec fn set_optional_result(s: SettingManifest, v: Option<ConfigurableValue>) -> Result<
    (),
    Error,
> {
    if !s.is_mutable {
        Err(Error::NotMutable)
    } else {
        validation_result(s, v)
    }
}

/// The verdict on `v` as a candidate value of `s`, mutability aside.
pub open spec fn validation_result(s: SettingManifest, v: Option<ConfigurableValue>) -> Result<
    (),
    Error,
> {
    match v {
        Some(x) => check_value(s.value_type, x),
        None => if s.is_required {
            Err(Error::RequiredValueMissing)
        } else {
            Ok(())
        },
    }
}

impl SettingManifest {
    /// A required setting keeps a value.
    pub open spec fn wf(&self) -> bool {
        self.is_required ==> self.value is Some
    }

    /// This setting with `value` in place of its current value.
    pub open spec fn with_value(self, value: Option<ConfigurableValue>) -> SettingManifest {
        SettingManifest { value, ..self }
    }

    pub fn get_value(&self) -> (r: Option<&ConfigurableValue>)
        ensures
            match self.value {
                Some(v) => r matches Some(x) && *x == v,
                None => r is None,
            },
    {
        self.value.as_ref()
    }

    pub fn get_identifier(&self) -> (r: &String)
        ensures
            *r == self.setting_id,
    {
        &self.setting_id
    }

    /// A required setting whose type is inferred from `value`: a number is
    /// unbounded, a string has no pattern and an enum has no options.
    pub fn new_required_value(
        setting_id: String,
        name: String,
        description: String,
        value: ConfigurableValue,
        default_value: Option<ConfigurableValue>,
        is_secret: bool,
        is_mutable: bool,
    ) -> (r: Self)
        ensures
            r.wf(),
            r.setting_id == setting_id,
            r.name == name,
            r.description == description,
            r.value == Some(value),
            is_loosest_type(value, r.value_type),
            r.default_value == default_value,
            r.is_secret == is_secret,
            r.is_required,
            r.is_mutable == is_mutable,
    {
        let value_type = value.infer_type();
        SettingManifest {
            setting_id,
            name,
            description,
            value: Some(value),
            value_type,
            default_value,
            is_secret,
            is_required: true,
            is_mutable,
        }
    }

    /// An optional setting of the given type; `value` is not checked.
    pub fn new_optional_value(
        setting_id: String,
        name: String,
        description: String,
        value: Option<ConfigurableValue>,
        value_type: ConfigurableValueType,
        default_value: Option<ConfigurableValue>,
        is_secret: bool,
        is_mutable: bool,
    ) -> (r: Self)
        ensures
            r.wf(),
            r == (SettingManifest {
                setting_id,
                name,
                description,
                value,
                value_type,
                default_value,
                is_secret,
                is_required: false,
                is_mutable,
            }),
    {
        SettingManifest {
            setting_id,
            name,
            description,
            value,
            value_type,
            default_value,
            is_secret,
            is_required: false,
            is_mutable,
        }
    }

    /// A setting of the given type, required exactly when it is given a
    /// value, which must then pass the type's check.
    pub fn new_value_with_type(
        setting_id: String,
        name: String,
        description: String,
        value: Option<ConfigurableValue>,
        value_type: ConfigurableValueType,
        default_value: Option<ConfigurableValue>,
        is_secret: bool,
        is_mutable: bool,
    ) -> (r: Result<Self, Error>)
        ensures
            match value {
                Some(v) => match check_value(value_type, v) {
                    Err(e) => r == Err::<Self, Error>(e),
                    Ok(_) => r is Ok,
                },
                None => r is Ok,
            },
            r matches Ok(s) ==> s.wf() && s == (SettingManifest {
                setting_id,
                name,
                description,
                value,
                value_type,
                default_value,
                is_secret,
                is_required: value is Some,
                is_mutable,
            }),
    {
        let is_required = match &value {
            Some(v) => {
                match value_type.type_check(v) {
                    Err(e) => {
                        return Err(e);
                    },
                    Ok(_) => {},
                }
                true
            },
            None => false,
        };
        Ok(
            SettingManifest {
                setting_id,
                name,
                description,
                value,
                value_type,
                default_value,
                is_secret,
                is_required,
                is_mutable,
            },
        )
    }

    fn set_value_type_safe(&mut self, value: ConfigurableValue) -> (r: Result<(), Error>)
        ensures
            r == check_value(old(self).value_type, value),
            r is Ok ==> *final(self) == old(self).with_value(Some(value)),
            r is Err ==> *final(self) == *old(self),
    {
        match self.value_type.type_check(&value) {
            Ok(()) => {
                self.value = Some(value);
                Ok(())
            },
            Err(e) => Err(e),
        }
    }

    /// Replaces the value with `value` if the setting is mutable and the
    /// value passes the type's check; otherwise changes nothing.
    pub fn set_value(&mut self, value: ConfigurableValue) -> (r: Result<(), Error>)
        ensures
            r == set_value_result(*old(self), value),
            !old(self).is_mutable ==> r == Err::<(), Error>(Error::NotMutable) && final(self).value
                == old(self).value,
            r is Ok ==> *final(self) == old(self).with_value(Some(value)),
            r is Err ==> *final(self) == *old(self),
            old(self).wf() ==> final(self).wf(),
    {
        if self.is_mutable {
            self.set_value_type_safe(value)
        } else {
            Err(Error::NotMutable)
        }
    }

    /// Replaces the value with `value`, `None` included, if the setting is
    /// mutable, `None` is not given to a required setting, and a given value
    /// passes the type's check; otherwise changes nothing.
    pub fn set_optional_value(&mut self, value: Option<ConfigurableValue>) -> (r: Result<(), Error>)
        ensures
            r == set_optional_result(*old(self), value),
            !old(self).is_mutable ==> r == Err::<(), Error>(Error::NotMutable) && final(self).value
                == old(self).value,
            old(self).is_required && value is None ==> r is Err && final(self).value == old(
                self,
            ).value,
            r is Ok ==> *final(self) == old(self).with_value(value),
            r is Err ==> *final(self) == *old(self),
            old(self).wf() ==> final(self).wf(),
    {
        if !self.is_mutable {
            return Err(Error::NotMutable);
        }
        match value {
            Some(v) => self.set_value_type_safe(v),
            None => {
                if self.is_required {
                    Err(Error::RequiredValueMissing)
                } else {
                    self.value = None;
                    Ok(())
                }
            },
        }
    }

    /// The verdict that `set_optional_value` would give on `value`, without
    /// changing anything: the same mutability gate, requiredness and type
    /// check.
    pub fn validate_setting(&self, value: &Option<ConfigurableValue>) -> (r: Result<(), Error>)
        ensures
            r == set_optional_result(*self, *value),
    {
        if !self.is_mutable {
            return Err(Error::NotMutable);
        }
        match value {
            Some(v) => self.value_type.type_check(v),
            None => {
                if self.is_required {
                    Err(Error::RequiredValueMissing)
                } else {
                    Ok(())
                }
            },
        }
    }
}

} // verus!
