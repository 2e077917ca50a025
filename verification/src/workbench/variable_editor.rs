//! The variable editor scene: the parameters and local variables of the
//! paused function, each editable in place.

use vstd::prelude::*;

verus! {

/// One variable as the editor shows it.
#[derive(Clone, Debug)]
pub struct Variable {
    pub name: String,
    pub var_type: String,
    pub value: String,
    pub is_editing: bool,
}

#[derive(Clone, Copy, Debug, PartialEq, Eq, Structural)]
pub enum SelectedSection {
    Parameters,
    LocalVariables,
    Actions,
}

#[derive(Debug)]
pub struct VariableEditorState {
    pub current_function: Option<String>,
    pub current_line: Option<u32>,
    pub function_parameters: Vec<Variable>,
    pub local_variables: Vec<Variable>,
    pub selected_section: SelectedSection,
    pub selected_index: usize,
}

/// A variable as the sample session shows it, not being edited.
pub open spec fn shows(v: Variable, name: Seq<char>, var_type: Seq<char>, value: Seq<char>) -> bool {
    v.name@ == name && v.var_type@ == var_type && v.value@ == value && !v.is_editing
}

fn variable(name: &str, var_type: &str, value: &str) -> (v: Variable)
    ensures
        shows(v, name@, var_type@, value@),
{
    Variable {
        name: String::from_str(name),
        var_type: String::from_str(var_type),
        value: String::from_str(value),
        is_editing: false,
    }
}

/// Every variable of `s` but the one at `i` is as in `t`.
pub open spec fn same_except(s: Seq<Variable>, t: Seq<Variable>, i: int) -> bool {
    s.len() == t.len() && forall|k: int| 0 <= k < s.len() && k != i ==> s[k] == t[k]
}

impl VariableEditorState {
    /// The editor as the sample session shows it: paused in `calculateTax`
    /// at line 45, with three parameters and three locals.
    pub fn new() -> (s: Self)
        ensures
            s.current_function matches Some(f) && f@ == "calculateTax"@,
            s.current_line == Some(45u32),
            s.function_parameters@.len() == 3,
            shows(s.function_parameters@[0], "price"@, "number"@, "99.99"@),
            shows(s.function_parameters@[1], "quantity"@, "number"@, "3"@),
            shows(s.function_parameters@[2], "region"@, "string"@, "\"US\""@),
            s.local_variables@.len() == 3,
            shows(s.local_variables@[0], "subtotal"@, "number"@, "299.97"@),
            shows(s.local_variables@[1], "taxRate"@, "number"@, "undefined"@),
            shows(s.local_variables@[2], "finalAmount"@, "number"@, "undefined"@),
            s.selected_section == SelectedSection::Parameters,
            s.selected_index == 0,
    {
        let mut function_parameters: Vec<Variable> = Vec::new();
        function_parameters.push(variable("price", "number", "99.99"));
        function_parameters.push(variable("quantity", "number", "3"));
        function_parameters.push(variable("region", "string", "\"US\""));
        let mut local_variables: Vec<Variable> = Vec::new();
        local_variables.push(variable("subtotal", "number", "299.97"));
        local_variables.push(variable("taxRate", "number", "undefined"));
        local_variables.push(variable("finalAmount", "number", "undefined"));
        VariableEditorState {
            current_function: Some(String::from_str("calculateTax")),
            current_line: Some(45),
            function_parameters,
            local_variables,
            selected_section: SelectedSection::Parameters,
            selected_index: 0,
        }
    }

    pub fn set_function(&mut self, function: String, line: u32)
        ensures
            *final(self) == (VariableEditorState {
                current_function: Some(function),
                current_line: Some(line),
                ..*old(self)
            }),
    {
        self.current_function = Some(function);
        self.current_line = Some(line);
    }

    pub fn add_parameter(&mut self, variable: Variable)
        ensures
            final(self).function_parameters@ == old(self).function_parameters@.push(variable),
            *final(self) == (VariableEditorState { function_parameters: final(self).function_parameters, ..*old(self) }),
    {
        self.function_parameters.push(variable);
    }

    pub fn add_local_variable(&mut self, variable: Variable)
        ensures
            final(self).local_variables@ == old(self).local_variables@.push(variable),
            *final(self) == (VariableEditorState { local_variables: final(self).local_variables, ..*old(self) }),
    {
        self.local_variables.push(variable);
    }

    /// Sets the value of variable `index` of `section`; an index past the
    /// end, or the actions section, changes nothing.
    pub fn update_variable_value(&mut self, section: SelectedSection, index: usize, new_value: String)
        ensures
            section == SelectedSection::Parameters && index < old(self).function_parameters@.len() ==> {
                &&& final(self).function_parameters@ == old(self).function_parameters@.update(index as int,
                    Variable { value: new_value, ..old(self).function_parameters@[index as int] })
                &&& *final(self) == (VariableEditorState { function_parameters: final(self).function_parameters, ..*old(self) })
            },
            section == SelectedSection::LocalVariables && index < old(self).local_variables@.len() ==> {
                &&& final(self).local_variables@ == old(self).local_variables@.update(index as int,
                    Variable { value: new_value, ..old(self).local_variables@[index as int] })
                &&& *final(self) == (VariableEditorState { local_variables: final(self).local_variables, ..*old(self) })
            },
            !(section == SelectedSection::Parameters && index < old(self).function_parameters@.len())
                && !(section == SelectedSection::LocalVariables && index < old(self).local_variables@.len())
                ==> *final(self) == *old(self),
    {
        match section {
            SelectedSection::Parameters => {
                if index < self.function_parameters.len() {
                    let mut v = self.function_parameters.remove(index);
                    v.value = new_value;
                    self.function_parameters.insert(index, v);
                    assert(self.function_parameters@ =~= old(self).function_parameters@.update(index as int,
                        Variable { value: new_value, ..old(self).function_parameters@[index as int] }));
                }
            },
            SelectedSection::LocalVariables => {
                if index < self.local_variables.len() {
                    let mut v = self.local_variables.remove(index);
                    v.value = new_value;
                    self.local_variables.insert(index, v);
                    assert(self.local_variables@ =~= old(self).local_variables@.update(index as int,
                        Variable { value: new_value, ..old(self).local_variables@[index as int] }));
                }
            },
            SelectedSection::Actions => {},
        }
    }

    /// Puts variable `index` of `section` into editing; an index past the
    /// end, or the actions section, changes nothing.
    pub fn start_editing(&mut self, section: SelectedSection, index: usize)
        ensures
            section == SelectedSection::Parameters && index < old(self).function_parameters@.len() ==> {
                &&& final(self).function_parameters@ == old(self).function_parameters@.update(index as int,
                    Variable { is_editing: true, ..old(self).function_parameters@[index as int] })
                &&& *final(self) == (VariableEditorState { function_parameters: final(self).function_parameters, ..*old(self) })
            },
            section == SelectedSection::LocalVariables && index < old(self).local_variables@.len() ==> {
                &&& final(self).local_variables@ == old(self).local_variables@.update(index as int,
                    Variable { is_editing: true, ..old(self).local_variables@[index as int] })
                &&& *final(self) == (VariableEditorState { local_variables: final(self).local_variables, ..*old(self) })
            },
            !(section == SelectedSection::Parameters && index < old(self).function_parameters@.len())
                && !(section == SelectedSection::LocalVariables && index < old(self).local_variables@.len())
                ==> *final(self) == *old(self),
    {
        match section {
            SelectedSection::Parameters => {
                if index < self.function_parameters.len() {
                    let mut v = self.function_parameters.remove(index);
                    v.is_editing = true;
                    self.function_parameters.insert(index, v);
                    assert(self.function_parameters@ =~= old(self).function_parameters@.update(index as int,
                        Variable { is_editing: true, ..old(self).function_parameters@[index as int] }));
                }
            },
            SelectedSection::LocalVariables => {
                if index < self.local_variables.len() {
                    let mut v = self.local_variables.remove(index);
                    v.is_editing = true;
                    self.local_variables.insert(index, v);
                    assert(self.local_variables@ =~= old(self).local_variables@.update(index as int,
                        Variable { is_editing: true, ..old(self).local_variables@[index as int] }));
                }
            },
            SelectedSection::Actions => {},
        }
    }

    /// Takes every variable out of editing.
    pub fn stop_editing(&mut self)
        ensures
            final(self).function_parameters@.len() == old(self).function_parameters@.len(),
            forall|i: int| 0 <= i < old(self).function_parameters@.len() ==>
                #[trigger] final(self).function_parameters@[i] == (Variable { is_editing: false, ..old(self).function_parameters@[i] }),
            final(self).local_variables@.len() == old(self).local_variables@.len(),
            forall|i: int| 0 <= i < old(self).local_variables@.len() ==>
                #[trigger] final(self).local_variables@[i] == (Variable { is_editing: false, ..old(self).local_variables@[i] }),
            *final(self) == (VariableEditorState {
                function_parameters: final(self).function_parameters,
                local_variables: final(self).local_variables,
                ..*old(self)
            }),
    {
        let mut i: usize = 0;
        while i < self.function_parameters.len()
            invariant
                i <= self.function_parameters@.len(),
                self.function_parameters@.len() == old(self).function_parameters@.len(),
                forall|k: int| 0 <= k < i ==> #[trigger] self.function_parameters@[k]
                    == (Variable { is_editing: false, ..old(self).function_parameters@[k] }),
                forall|k: int| i <= k < self.function_parameters@.len() ==> #[trigger] self.function_parameters@[k]
                    == old(self).function_parameters@[k],
                *self == (VariableEditorState { function_parameters: self.function_parameters, ..*old(self) }),
            decreases self.function_parameters.len() - i,
        {
            let mut v = self.function_parameters.remove(i);
            v.is_editing = false;
            self.function_parameters.insert(i, v);
            i += 1;
        }
        let ghost mid = *self;
        let mut j: usize = 0;
        while j < self.local_variables.len()
            invariant
                j <= self.local_variables@.len(),
                self.local_variables@.len() == old(self).local_variables@.len(),
                forall|k: int| 0 <= k < j ==> #[trigger] self.local_variables@[k]
                    == (Variable { is_editing: false, ..old(self).local_variables@[k] }),
                forall|k: int| j <= k < self.local_variables@.len() ==> #[trigger] self.local_variables@[k]
                    == old(self).local_variables@[k],
                *self == (VariableEditorState { local_variables: self.local_variables, ..mid }),
            decreases self.local_variables.len() - j,
        {
            let mut v = self.local_variables.remove(j);
            v.is_editing = false;
            self.local_variables.insert(j, v);
            j += 1;
        }
    }
}

} // verus!
