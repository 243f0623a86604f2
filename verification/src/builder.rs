//! A builder that gathers bindings and axis settings, then makes either view
//! of them.

use vstd::prelude::*;
use crate::action::Action;
use crate::button::Button;
use crate::conversion::regroup;
use crate::mouse::{MouseTranslationData, Size};
use crate::rebind::InputRebind;
use crate::translator::InputTranslator;

verus! {

/// The translator bindings that a sequence of bindings makes: each button is
/// bound to the action of the last binding that names it.
pub open spec fn collected<A: Action>(mappings: Seq<(Button, A)>) -> Map<Button, A>
    decreases mappings.len(),
{
    if mappings.len() == 0 {
        Map::empty()
    } else {
        collected(mappings.drop_last()).insert(mappings.last().0, mappings.last().1)
    }
}

/// Gathers bindings and axis settings for an `InputTranslator` or an
/// `InputRebind`.
pub struct RebindBuilder<A: Action> {
    input_remappings: Vec<(Button, A)>,
    mouse_data: MouseTranslationData,
}

impl<A: Action> RebindBuilder<A> {
    /// The bindings gathered so far, in the order in which they were added.
    pub closed spec fn mappings(&self) -> Seq<(Button, A)> {
        self.input_remappings@
    }

    /// The axis settings.
    pub closed spec fn mouse(&self) -> MouseTranslationData {
        self.mouse_data
    }

    /// A builder with no bindings that inverts no axis, for a viewport of
    /// the given size.
    pub fn new(size: Size) -> (builder: Self)
        ensures
            builder.mappings() == Seq::<(Button, A)>::empty(),
            builder.mouse() == MouseTranslationData::plain(size),
    {
        RebindBuilder { input_remappings: Vec::new(), mouse_data: MouseTranslationData::new(size) }
    }

    /// Sets whether scrolling along the x axis is inverted in what is built.
    pub fn x_scroll_inverted(self, invert: bool) -> (builder: Self)
        ensures
            builder.mappings() == self.mappings(),
            builder.mouse() == (MouseTranslationData { x_axis_scroll_inverted: invert, ..self.mouse() }),
    {
        let mut builder = self;
        builder.mouse_data.x_axis_scroll_inverted = invert;
        builder
    }

    /// Whether scrolling along the x axis is inverted in what is built.
    pub fn get_x_scroll_inverted(&self) -> (inverted: &bool)
        ensures
            *inverted == self.mouse().x_axis_scroll_inverted,
    {
        &self.mouse_data.x_axis_scroll_inverted
    }

    /// Sets whether scrolling along the y axis is inverted in what is built.
    pub fn y_scroll_inverted(self, invert: bool) -> (builder: Self)
        ensures
            builder.mappings() == self.mappings(),
            builder.mouse() == (MouseTranslationData { y_axis_scroll_inverted: invert, ..self.mouse() }),
    {
        let mut builder = self;
        builder.mouse_data.y_axis_scroll_inverted = invert;
        builder
    }

    /// Whether scrolling along the y axis is inverted in what is built.
    pub fn get_y_scroll_inverted(&self) -> (inverted: &bool)
        ensures
            *inverted == self.mouse().y_axis_scroll_inverted,
    {
        &self.mouse_data.y_axis_scroll_inverted
    }

    /// Sets whether positions of the cursor along the x axis are inverted in what is built.
    pub fn x_motion_inverted(self, invert: bool) -> (builder: Self)
        ensures
            builder.mappings() == self.mappings(),
            builder.mouse() == (MouseTranslationData { x_axis_motion_inverted: invert, ..self.mouse() }),
    {
        let mut builder = self;
        builder.mouse_data.x_axis_motion_inverted = invert;
        builder
    }

    /// Whether positions of the cursor along the x axis are inverted in what is built.
    pub fn get_x_motion_inverted(&self) -> (inverted: &bool)
        ensures
            *inverted == self.mouse().x_axis_motion_inverted,
    {
        &self.mouse_data.x_axis_motion_inverted
    }

    /// Sets whether positions of the cursor along the y axis are inverted in what is built.
    pub fn y_motion_inverted(self, invert: bool) -> (builder: Self)
        ensures
            builder.mappings() == self.mappings(),
            builder.mouse() == (MouseTranslationData { y_axis_motion_inverted: invert, ..self.mouse() }),
    {
        let mut builder = self;
        builder.mouse_data.y_axis_motion_inverted = invert;
        builder
    }

    /// Whether positions of the cursor along the y axis are inverted in what is built.
    pub fn get_y_motion_inverted(&self) -> (inverted: &bool)
        ensures
            *inverted == self.mouse().y_axis_motion_inverted,
    {
        &self.mouse_data.y_axis_motion_inverted
    }

    /// Sets the viewport size that positions of the cursor are reflected in.
    pub fn viewport_size(self, size: Size) -> (builder: Self)
        ensures
            builder.mappings() == self.mappings(),
            builder.mouse() == (MouseTranslationData { viewport_size: size, ..self.mouse() }),
    {
        let mut builder = self;
        builder.mouse_data.viewport_size = size;
        builder
    }

    /// The viewport size that positions of the cursor are reflected in.
    pub fn get_viewport_size(&self) -> (size: &Size)
        ensures
            *size == self.mouse().viewport_size,
    {
        &self.mouse_data.viewport_size
    }

    /// Adds a binding of the button to the action.
    pub fn with_action_mapping(self, button: Button, action: A) -> (builder: Self)
        ensures
            builder.mappings() == self.mappings().push((button, action)),
            builder.mouse() == self.mouse(),
    {
        let mut builder = self;
        builder.input_remappings.push((button, action));
        builder
    }

    /// Makes a translator of what was gathered. A button that was bound
    /// more than once is bound to the action it was last bound to.
    pub fn build_translator(self) -> (translator: InputTranslator<A>)
        ensures
            translator.bindings() == collected(self.mappings()),
            translator.mouse() == self.mouse(),
    {
        let mut translator = InputTranslator::with_mouse_data(self.mouse_data);
        let mut i: usize = 0;
        while i < self.input_remappings.len()
            invariant
                i <= self.input_remappings@.len(),
                translator.bindings() == collected(self.input_remappings@.take(i as int)),
                translator.mouse() == self.mouse(),
            decreases self.input_remappings.len() - i,
        {
            let (button, action) = self.input_remappings[i];
            proof {
                let next = self.input_remappings@.take(i as int + 1);
                assert(next.drop_last() =~= self.input_remappings@.take(i as int));
                assert(next.last() == (button, action));
            }
            translator.bind(button, action);
            i += 1;
        }
        assert(self.input_remappings@.take(i as int) =~= self.input_remappings@);
        translator
    }

    /// Makes a rebind of what was gathered: the rebind that the translator
    /// of what was gathered converts to.
    pub fn build_rebind(self) -> (rebind: InputRebind<A>)
        ensures
            rebind.wf(),
            rebind.bindings() == regroup(collected(self.mappings())),
            rebind.mouse() == self.mouse(),
    {
        self.build_translator().into_rebind()
    }
}

impl<A: Action> Default for RebindBuilder<A> {
    /// A builder with no bindings that inverts no axis, for a viewport of
    /// 800 by 600.
    fn default() -> (builder: Self)
        ensures
            builder.mappings() == Seq::<(Button, A)>::empty(),
            builder.mouse() == MouseTranslationData::plain(Size { width: 800, height: 600 }),
    {
        RebindBuilder::new(Size { width: 800, height: 600 })
    }
}

impl<A: Action> From<RebindBuilder<A>> for InputTranslator<A> {
    /// Makes a translator of what the builder gathered, as
    /// `RebindBuilder::build_translator` does.
    fn from(builder: RebindBuilder<A>) -> (translator: Self)
        ensures
            translator.bindings() == collected(builder.mappings()),
            translator.mouse() == builder.mouse(),
    {
        builder.build_translator()
    }
}

impl<A: Action> vstd::std_specs::convert::FromSpecImpl<RebindBuilder<A>> for InputTranslator<A> {
    open spec fn obeys_from_spec() -> bool {
        false
    }

    open spec fn from_spec(builder: RebindBuilder<A>) -> Self {
        arbitrary()
    }
}

impl<A: Action> From<RebindBuilder<A>> for InputRebind<A> {
    /// Makes a rebind of what the builder gathered, as
    /// `RebindBuilder::build_rebind` does.
    fn from(builder: RebindBuilder<A>) -> (rebind: Self)
        ensures
            rebind.wf(),
            rebind.bindings() == regroup(collected(builder.mappings())),
            rebind.mouse() == builder.mouse(),
    {
        builder.build_rebind()
    }
}

impl<A: Action> vstd::std_specs::convert::FromSpecImpl<RebindBuilder<A>> for InputRebind<A> {
    open spec fn obeys_from_spec() -> bool {
        false
    }

    open spec fn from_spec(builder: RebindBuilder<A>) -> Self {
        arbitrary()
    }
}

} // verus!
