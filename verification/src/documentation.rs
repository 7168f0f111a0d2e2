//! The documentation that each lint declares.

use vstd::prelude::*;

verus! {

/// What `leptos_event_target` does, why that matters, and what to write instead.
pub const EVENT_TARGET_DOCUMENTATION: &'static str = "### What it does

Warn about usages of `event_target`. The purpose of this lint is
to make users know that the function may panic under certain circumstances.

### Why is this bad?

The function `leptos::prelude::event_target` will panic at run-time if the
event doesn't have a target (eg. `web_sys::FetchEvent`) or is manually
created with `web_sys::Event::new` or `web_sys::MouseEvent::new`. This
can introduce hard-to-debug runtime errors in Leptos applications
that produce panics at run-time.

To reproduce:

```rust,ignore
let event = web_sys::Event::new(\"visibilitychange\").unwrap();
let target = leptos::prelude::event_target::<web_sys::Document>(&event);
```

The underlying problem is that the MDN APIs don't guarantee at type level
if `target` is null or not.

### Example

```rust,ignore
let target = leptos::prelude::event_target::<web_sys::Document>(&event);
```

Use instead:

```rust,ignore
let target = match event.target() {
    Some(t) => t.dyn_into::<web_sys::Document>().ok(),
    None => {
       // handle the case where there is no target
       todo!()
    },
};
```

Or allow the lint if you're sure that the event has a target:

```rust,ignore
#[allow(leptos_event_target)]
let target = leptos::prelude::event_target::<web_sys::Document>(&event);
```";

/// What `leptos_event_target_value` does, why that matters, and what to write instead.
pub const EVENT_TARGET_VALUE_DOCUMENTATION: &'static str = "### What it does

Warn about usages of `event_target_value`. The purpose of this lint is
to make users know that the function may panic under certain circumstances.

### Why is this bad?

The function `leptos::prelude::event_target_value` will panic at run-time
if the event doesn't have a target (eg. `web_sys::FetchEvent`), is manually
created with `web_sys::Event::new` or `web_sys::MouseEvent::new`, or
the target doesn't have a `value()` method. This can introduce hard-to-debug
runtime errors in Leptos applications that produce panics at run-time.

To reproduce:

```rust,ignore
let event = web_sys::Event::new(\"visibilitychange\").unwrap();
let target = leptos::prelude::event_target::<web_sys::Document>(&event);
```

In case that the event's target doesn't have a `value()` method, calling
`event_target_value` will display somehing like:

```ignore
TypeError: Cannot read properties of undefined (reading 'length')
```

The underlying problem is that the MDN APIs don't guarantee at type level
the element returned by `target`.

### Example

```rust,ignore
let target = leptos::prelude::event_target_value::<web_sys::Document>(&event);
```

Use instead:

```rust,ignore
let value = match event.target() {
    Some(t) => match t.dyn_into::<web_sys::HtmlInputElement>() {
        Ok(input) => Some(input.value()),
        Err(_) => {
            // handle the case where the target doesn't have a value
           todo!()
        },
    },
    None => {
       // handle the case where there is no target
       todo!()
    },
};
```

Or allow the lint if you're sure that the event has a target and the target
has a `value()` method:

```rust,ignore
#[allow(leptos_event_target_value)]
let value = leptos::prelude::event_target_value::<web_sys::Document>(&event);
```";

/// What `leptos_unscoped_spawn` does, why that matters, and what to write instead.
pub const UNSCOPED_SPAWN_DOCUMENTATION: &'static str = "### What it does

Forbids the use of `leptos::task::spawn_local`, and recommends using
`leptos::task::spawn_local_scoped` instead.  The purpose of this lint is
to reduce the risk of missing context at run-time.

### Why is this bad?

In Leptos, it's not always obvious when contexts are available. There are situations
where they are not, like in unscoped spawns. These missing contexts can be difficult
to detect and debug, and lead to run-time bugs.

For a in-depth explanation, please refer to [`leptos_unscoped_spawn`'s rationale].

[`leptos_unscoped_spawn`'s rationale]: https://github.com/leptos-rs/leptos-lints/blob/main/lints/leptos_unscoped_spawn/RATIONALE.md

### Example

```rust
leptos::task::spawn_local(async {
    // ...
});
```

Use instead:

```rust
leptos::task::spawn_local_scoped(async {
    // ...
});
```

A scoped spawn is less performant, so if you're sure that you're not using contexts
in the spawn, allow the spawn to be unscoped.

```rust
#[allow(leptos_unscoped_spawn)]
leptos::task::spawn_local(async {
    // ...
});
```";

} // verus!
