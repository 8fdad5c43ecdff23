use crate::config::Device;
use crate::double::Double;
use crate::errors::Error;
use vstd::prelude::*;

verus! {

/// evdev event type of key and button events.
pub const EV_KEY: u16 = 0x01;

/// evdev event type of relative axis events.
pub const EV_REL: u16 = 0x02;

/// evdev event type of absolute axis events.
pub const EV_ABS: u16 = 0x03;

pub const REL_X: u16 = 0x00;

pub const REL_Y: u16 = 0x01;

pub const REL_HWHEEL: u16 = 0x06;

pub const REL_WHEEL: u16 = 0x08;

pub const REL_WHEEL_HI_RES: u16 = 0x0b;

pub const REL_HWHEEL_HI_RES: u16 = 0x0c;

pub const ABS_X: u16 = 0x00;

pub const ABS_Y: u16 = 0x01;

/// High-resolution scroll units in one wheel detent.
pub const V120_PER_DETENT: u8 = 120;

/// One evdev event: type, code and value.
#[derive(Clone, Copy, Debug, PartialEq, Eq, Structural)]
pub struct InputEvent {
    pub event_type: u16,
    pub code: u16,
    pub value: i32,
}

#[derive(Clone, Copy, Debug, PartialEq, Eq, Structural)]
pub enum ButtonState {
    Released,
    Pressed,
}

/// One axis of a wheel event: its scroll value and its value in 120ths of a detent.
#[derive(Clone, Copy, Debug, PartialEq, Eq, Structural)]
pub struct WheelAxis {
    pub value: Double,
    pub v120: Double,
}

/// A pointer event as the input library delivers it. An axis that the event does not
/// carry is `None`.
#[derive(Debug)]
#[allow(inconsistent_fields)]
pub enum PointerEvent {
    Motion { dx: Double, dy: Double },
    MotionAbsolute { x: Double, y: Double },
    Button { button: u32, state: ButtonState },
    ScrollWheel { vertical: Option<WheelAxis>, horizontal: Option<WheelAxis> },
    ScrollFinger { vertical: Option<Double>, horizontal: Option<Double> },
    ScrollContinuous { vertical: Option<Double>, horizontal: Option<Double> },
    /// The legacy axis event, superseded by the three scroll events.
    Axis,
    /// Any other pointer event, with a description of it.
    Other(String),
}

/// The batch of events that one pointer event becomes.
#[derive(Debug)]
pub struct SinkEvent(pub Vec<InputEvent>);

pub open spec fn rel_event(code: u16, value: i32) -> InputEvent {
    InputEvent { event_type: EV_REL, code, value }
}

pub open spec fn abs_event(code: u16, value: i32) -> InputEvent {
    InputEvent { event_type: EV_ABS, code, value }
}

pub open spec fn key_event(code: u16, state: ButtonState) -> InputEvent {
    InputEvent {
        event_type: EV_KEY,
        code,
        value: match state {
            ButtonState::Pressed => 1,
            ButtonState::Released => 0,
        },
    }
}

/// The low- and high-resolution events of one scroll axis, if the event carries it.
pub open spec fn axis_events(lo_code: u16, hi_code: u16, values: Option<(i32, i32)>) -> Seq<
    InputEvent,
> {
    match values {
        Some((lo, hi)) => seq![rel_event(lo_code, lo), rel_event(hi_code, hi)],
        None => seq![],
    }
}

/// Truncated low- and high-resolution values of a wheel axis; the vertical one is negated.
pub open spec fn wheel_values(a: Option<WheelAxis>, negate: bool) -> Option<(i32, i32)> {
    match a {
        Some(w) => if negate {
            Some((w.value.neg_spec().trunc_spec(), w.v120.neg_spec().trunc_spec()))
        } else {
            Some((w.value.trunc_spec(), w.v120.trunc_spec()))
        },
        None => None,
    }
}

/// Truncated low- and high-resolution values of a finger or continuous scroll axis: the
/// high-resolution one is the value times 120, as a rounded product of doubles. The
/// vertical ones are negated.
pub open spec fn scroll_values(a: Option<Double>, negate: bool) -> Option<(i32, i32)> {
    match a {
        Some(v) => {
            let hi = v.times(V120_PER_DETENT as nat);
            if negate {
                Some((v.neg_spec().trunc_spec(), hi.neg_spec().trunc_spec()))
            } else {
                Some((v.trunc_spec(), hi.trunc_spec()))
            }
        },
        None => None,
    }
}

/// Vertical low- and high-resolution events, then horizontal ones, for the axes present.
pub open spec fn scroll_batch(vertical: Option<(i32, i32)>, horizontal: Option<(i32, i32)>) -> Seq<
    InputEvent,
> {
    axis_events(REL_WHEEL, REL_WHEEL_HI_RES, vertical) + axis_events(
        REL_HWHEEL,
        REL_HWHEEL_HI_RES,
        horizontal,
    )
}

/// The batch that `event` becomes under `device`, or `None` for an event that is not
/// translated.
pub open spec fn translate(event: PointerEvent, device: Device) -> Option<Seq<InputEvent>> {
    match event {
        PointerEvent::Motion { dx, dy } => Some(
            seq![rel_event(REL_X, dx.trunc_spec()), rel_event(REL_Y, dy.trunc_spec())],
        ),
        PointerEvent::MotionAbsolute { x, y } => Some(
            seq![abs_event(ABS_X, x.trunc_spec()), abs_event(ABS_Y, y.trunc_spec())],
        ),
        PointerEvent::Button { button, state } => Some(
            seq![key_event(device.mapped_code(button as u16), state)],
        ),
        PointerEvent::ScrollWheel { vertical, horizontal } => Some(
            scroll_batch(wheel_values(vertical, true), wheel_values(horizontal, false)),
        ),
        PointerEvent::ScrollFinger { vertical, horizontal } => Some(
            scroll_batch(scroll_values(vertical, true), scroll_values(horizontal, false)),
        ),
        PointerEvent::ScrollContinuous { vertical, horizontal } => Some(
            scroll_batch(scroll_values(vertical, true), scroll_values(horizontal, false)),
        ),
        PointerEvent::Axis => Some(seq![]),
        PointerEvent::Other(_) => None,
    }
}

/// A button press or release that `button_mapping` holds no entry for is sent under the
/// code it came with, in the same state.
pub proof fn lemma_unmapped_button_identity(device: Device, button: u32, state: ButtonState)
    requires
        !device.button_mapping@.contains_key(button as u16),
    ensures
        translate(PointerEvent::Button { button, state }, device) == Some(
            seq![key_event(button as u16, state)],
        ),
{
}

/// Translation gives a batch for every pointer event but those outside the handled kinds;
/// the batch depends on the event and the device configuration alone.
pub proof fn lemma_translate_total(event: PointerEvent, device: Device)
    ensures
        translate(event, device) is Some <==> !(event is Other),
        event is Axis ==> translate(event, device) == Some(Seq::<InputEvent>::empty()),
{
}

/// The text of the error for an event that is not translated.
pub open spec fn unexpected_message(description: Seq<char>) -> Seq<char> {
    "unexpected pointer event: "@ + description
}

fn new_relative_event(code: u16, value: i32) -> (r: InputEvent)
    ensures
        r == rel_event(code, value),
{
    InputEvent { event_type: EV_REL, code, value }
}

fn new_absolute_event(code: u16, value: i32) -> (r: InputEvent)
    ensures
        r == abs_event(code, value),
{
    InputEvent { event_type: EV_ABS, code, value }
}

fn new_button_event(code: u16, state: ButtonState) -> (r: InputEvent)
    ensures
        r == key_event(code, state),
{
    InputEvent {
        event_type: EV_KEY,
        code,
        value: match state {
            ButtonState::Pressed => 1,
            ButtonState::Released => 0,
        },
    }
}

fn dispatch_scroll_event(vertical: Option<(i32, i32)>, horizontal: Option<(i32, i32)>) -> (r: Vec<
    InputEvent,
>)
    ensures
        r@ == scroll_batch(vertical, horizontal),
{
    let mut res: Vec<InputEvent> = Vec::new();
    if let Some((v, v120)) = vertical {
        res.push(new_relative_event(REL_WHEEL, v));
        res.push(new_relative_event(REL_WHEEL_HI_RES, v120));
    }
    assert(res@ =~= axis_events(REL_WHEEL, REL_WHEEL_HI_RES, vertical));
    if let Some((v, v120)) = horizontal {
        res.push(new_relative_event(REL_HWHEEL, v));
        res.push(new_relative_event(REL_HWHEEL_HI_RES, v120));
    }
    assert(res@ =~= scroll_batch(vertical, horizontal));
    res
}

fn convert_wheel_axis(a: Option<WheelAxis>, negate: bool) -> (r: Option<(i32, i32)>)
    ensures
        r == wheel_values(a, negate),
{
    match a {
        Some(w) => if negate {
            Some((w.value.neg().trunc(), w.v120.neg().trunc()))
        } else {
            Some((w.value.trunc(), w.v120.trunc()))
        },
        None => None,
    }
}

fn convert_scroll_axis(a: Option<Double>, negate: bool) -> (r: Option<(i32, i32)>)
    ensures
        r == scroll_values(a, negate),
{
    match a {
        Some(v) => {
            let hi = v.times_small(V120_PER_DETENT);
            if negate {
                Some((v.neg().trunc(), hi.neg().trunc()))
            } else {
                Some((v.trunc(), hi.trunc()))
            }
        },
        None => None,
    }
}

impl SinkEvent {
    pub open spec fn view(&self) -> Seq<InputEvent> {
        self.0@
    }

    /// The events of the batch, in the order they are emitted.
    pub fn as_ref(&self) -> (r: &Vec<InputEvent>)
        ensures
            r@ == self.view(),
    {
        &self.0
    }

    /// Translates one pointer event into the batch of evdev events that the sink emits.
    /// Only an event outside the translated kinds fails, with a message naming it.
    pub fn from_pointer_event(event: &PointerEvent, device_config: &Device) -> (r: Result<
        SinkEvent,
        Error,
    >)
        ensures
            match r {
                Ok(s) => translate(*event, *device_config) == Some(s.view()),
                Err(e) => translate(*event, *device_config) is None && (match (e, *event) {
                    (Error::Message(m), PointerEvent::Other(d)) => m@ == unexpected_message(d@),
                    _ => false,
                }),
            },
    {
        match event {
            PointerEvent::Motion { dx, dy } => Ok(
                SinkEvent(
                    vec![new_relative_event(REL_X, dx.trunc()), new_relative_event(REL_Y, dy.trunc())],
                ),
            ),
            PointerEvent::MotionAbsolute { x, y } => Ok(
                SinkEvent(
                    vec![new_absolute_event(ABS_X, x.trunc()), new_absolute_event(ABS_Y, y.trunc())],
                ),
            ),
            PointerEvent::Button { button, state } => {
                let source = crate::button::Button::from_code(*button as u16);
                let mapped = device_config.map_button(source);
                Ok(SinkEvent(vec![new_button_event(mapped.code(), *state)]))
            },
            PointerEvent::ScrollWheel { vertical, horizontal } => Ok(
                SinkEvent(
                    dispatch_scroll_event(
                        convert_wheel_axis(*vertical, true),
                        convert_wheel_axis(*horizontal, false),
                    ),
                ),
            ),
            PointerEvent::ScrollFinger { vertical, horizontal } => Ok(
                SinkEvent(
                    dispatch_scroll_event(
                        convert_scroll_axis(*vertical, true),
                        convert_scroll_axis(*horizontal, false),
                    ),
                ),
            ),
            PointerEvent::ScrollContinuous { vertical, horizontal } => Ok(
                SinkEvent(
                    dispatch_scroll_event(
                        convert_scroll_axis(*vertical, true),
                        convert_scroll_axis(*horizontal, false),
                    ),
                ),
            ),
            PointerEvent::Axis => Ok(SinkEvent(Vec::new())),
            PointerEvent::Other(description) => {
                let prefix = "unexpected pointer event: ".to_owned();
                let d: &str = description;
                Err(Error::Message(prefix.concat(d)))
            },
        }
    }
}

} // verus!
