//! The script that every runtime evaluates first, in parts.
//!
//! It builds the element prototype from the tables of style and behavior names, and the objects that
//! the built-in modules export. Each definition of a method stands by itself between the parts, so
//! that the methods which the script defines by hand can be told. What a literal holds is known from
//! the literal alone, which is why every part is repeated where something is proved of it.
use crate::prelude;
use crate::text;
use vstd::prelude::*;
use vstd::string::*;

verus! {

/// Where the methods are installed that have no definition of their own.
const DISPATCH: &'static str = "for (const name of __behaviorNames) define(name);";

const PART_1: &'static str = r##"
globalThis.__gpui = (() => {
  const methods = {};

  const diagnostic = new Proxy(methods, {
    get(target, name, receiver) {
      const found = Reflect.get(target, name, receiver);
      if (found !== undefined) return found;
      if (typeof name !== "string" || name.startsWith("__")) return undefined;
      return () => __unknown(name);
    },
  });

  globalThis.__diagnostics = false;

  const element = (id) => {
    const object = Object.create(globalThis.__diagnostics ? diagnostic : methods);
    object.__id = id;
    return object;
  };

  const define = (name) => {
    methods[name] = function (...args) {
      __apply(this.__id, name, args);
      return this;
    };
  };

  const defineNullaryStyle = (name, index) => {
    methods[name] = function () {
      __applyNullaryStyle(this.__id, index);
      return this;
    };
  };
  const defineParamStyle = (name, index) => {
    methods[name] = function (value) {
      __applyParamStyle(this.__id, index, value);
      return this;
    };
  };

  for (let i = 0; i < __nullaryStyles.length; i += 1) {
    defineNullaryStyle(__nullaryStyles[i], __nullaryStyleIndexes[i]);
  }
  for (let i = 0; i < __paramStyles.length; i += 1) {
    defineParamStyle(__paramStyles[i], i);
  }"##;

const PART_2: &'static str = r##"

  const childId = (child) => {
    const id = child?.__id;
    if (id !== undefined) return id;
    const kind = typeof child;
    if (kind === "string" || kind === "number" || kind === "boolean") {
      return __text(String(child));
    }
    if (child?.__slot !== undefined) return __text_slot(child.__slot);
    if (child?.__entity) return __child_view(child.__handle);
    throw new TypeError(
      "child(value) expects an element, a string, or an entity from cx.new(Class, props)",
    );
  };"##;

const PART_3: &'static str = r##" (child) {
    __attach(this.__id, childId(child));
    return this;
  };"##;

const PART_4: &'static str = r##" (list) {
    for (const child of list) __attach(this.__id, childId(child));
    return this;
  };
  const slot = (name) =>
    function (element) {
      __apply(this.__id, name, [element.__id]);
      return this;
    };
"##;

const PART_5: &'static str = r##"("content");"##;

const PART_6: &'static str = r##"("trigger");
"##;

const PART_7: &'static str = r##"("input");"##;

const PART_8: &'static str = r##"("decrement_button");"##;

const PART_9: &'static str = r##"("increment_button");
"##;

const PART_10: &'static str = r##"("image");"##;

const PART_11: &'static str = r##"("fallback");
"##;

const PART_12: &'static str = r##"("header");"##;

const PART_13: &'static str = r##"("footer");"##;

const PART_14: &'static str = r##"("panel");
"##;

const PART_15: &'static str = r##" (handle) {
    if (typeof handle?.__handle !== "number") {
      throw new TypeError(
        "track_focus(handle) expects a FocusHandle from cx.focus_handle(), not a name or an element",
      );
    }
    __apply(this.__id, "track_focus", [handle.__handle]);
    return this;
  };"##;

const PART_16: &'static str = r##" (handle) {
    if (typeof handle?.__handle !== "number") {
      throw new TypeError(
        "track_scroll(handle) expects a VirtualListScrollHandle from VirtualListScrollHandle.new()",
      );
    }
    __apply(this.__id, "track_scroll", [handle.__handle]);
    return this;
  };"##;

const PART_17: &'static str = r##" (handle) {
    if (typeof handle?.__handle !== "number") {
      throw new TypeError(
        "content_focus_handle(handle) expects a FocusHandle from cx.focus_handle(), not a name or an element",
      );
    }
    __apply(this.__id, "content_focus_handle", [handle.__handle]);
    return this;
  };
  const state = (name) =>
    function (declare) {
      const target = element(__state(this.__id, name));
      declare(target);
      return this;
    };
"##;

const PART_18: &'static str = r##"("hover");"##;

const PART_19: &'static str = r##"("active");"##;

const PART_20: &'static str = r##"("focus");"##;

const PART_21: &'static str = r##"("range_style");"##;

const PART_22: &'static str = r##"("cell_style");"##;

const PART_23: &'static str = r##"("cell_active_style");"##;

const PART_24: &'static str = r##"("caret_style");

  const checkListArgs = (shape, item_count, get_key, render, renderHint) => {
    if (!Number.isInteger(item_count) || item_count < 0) {
      throw new TypeError(shape + " needs a whole, non-negative item_count");
    }
    if (typeof get_key !== "function") {
      throw new TypeError(
        shape + " needs get_key(index) to return each item's stable string key",
      );
    }
    if (typeof render !== "function") {
      throw new TypeError(shape + " needs a render function; it is called " + renderHint);
    }
  };

  const RANGE_HINT = "once per visible range, not once per item";

  const virtualList = (build, name) => (id, item_count, item_sizes, get_key, render) => {
    const shape = name + "(id, item_count, item_sizes, get_key, render)";
    checkListArgs(shape, item_count, get_key, render, RANGE_HINT);
    if (Array.isArray(item_sizes) && item_sizes.length !== item_count) {
      throw new TypeError(
        shape + " was given " + item_sizes.length + " item sizes for " + item_count +
          " items; pass one number for a uniform extent, or one per item",
      );
    }
    return element(build(String(id), item_count, item_sizes, get_key, render));
  };

  const lazyList = (build, name, perItem) => (id, item_count, get_key, render) => {
    const shape = name + "(id, item_count, get_key, render)";
    checkListArgs(
      shape,
      item_count,
      get_key,
      render,
      perItem ? "once per item on screen, with the item's index" : RANGE_HINT,
    );
    const describe = perItem
      ? (range, cx) => {
          const items = [];
          for (let index = range.start; index < range.end; index++) {
            items.push(render(index, cx));
          }
          return items;
        }
      : render;
    return element(build(String(id), item_count, get_key, describe));
  };

  const finiteNonNegative = (value, name) => {
    if (typeof value !== "number" || !Number.isFinite(value) || value < 0) {
      throw new TypeError(name + " must be a finite non-negative number");
    }
    return value;
  };

  const finitePositive = (value, name) => {
    if (typeof value !== "number" || !Number.isFinite(value) || value <= 0) {
      throw new TypeError(name + " must be a finite positive number");
    }
    return value;
  };"##;

const PART_25: &'static str = r##"

  const oneBased = (value, name) => {
    if (!Number.isInteger(value) || value < 1) {
      throw new TypeError(name + " must be a whole number of at least 1");
    }
    return value;
  };
"##;

const PART_26: &'static str = r##" (property, options) {
    property = String(property);
    if (!["opacity", "width", "height", "left", "top"].includes(property)) {
      throw new TypeError(
        "transition(property, policy) supports opacity, width, height, left or top; got " +
          JSON.stringify(property),
      );
    }
    const policy = typeof options === "number" ? { duration: options } : (options ?? {});
    const duration = finiteDuration(policy.duration ?? 0, "transition duration");
    const delay = finiteDuration(policy.delay ?? 0, "transition delay");
    const easing = policy.easing ?? "ease-out";
    if (!["linear", "ease-in", "ease-out", "ease-in-out"].includes(easing)) {
      throw new TypeError(
        "transition easing must be linear, ease-in, ease-out or ease-in-out; got " +
          JSON.stringify(easing),
      );
    }
    __apply(this.__id, "transition", [
      property,
      duration,
      delay,
      easing,
    ]);
    return this;
  };
"##;

const PART_27: &'static str = r##" (property, options) {
    property = String(property);
    if (!["opacity", "width", "height", "left", "top"].includes(property)) {
      throw new TypeError(
        "spring(property, policy) supports opacity, width, height, left or top; got " +
          JSON.stringify(property),
      );
    }
    const policy = options ?? {};
    const response = finiteDuration(policy.response ?? 250, "spring response");
    const damping = finiteNonNegative(policy.damping ?? 1, "spring damping");
    const epsilon = finitePositive(policy.epsilon ?? 0.001, "spring epsilon");
    __apply(this.__id, "spring", [
      property,
      response,
      damping,
      epsilon,
    ]);
    return this;
  };
"##;

const PART_28: &'static str = r##" (value) {
    value = String(value);
    if (!["horizontal", "vertical"].includes(value)) {
      throw new TypeError(
        "axis(value) must be horizontal or vertical; got " + JSON.stringify(value),
      );
    }
    __apply(this.__id, "axis", [value]);
    return this;
  };
"##;

const PART_29: &'static str = r##" (value) {
    value = String(value);
    if (!["scrolling", "hover", "always"].includes(value)) {
      throw new TypeError(
        "mode(value) must be scrolling, hover or always; got " + JSON.stringify(value),
      );
    }
    __apply(this.__id, "mode", [value]);
    return this;
  };
"##;

const PART_30: &'static str = r##" (width, height) {
    __apply(this.__id, "scroll_size", [
      finiteNonNegative(width, "scroll_size width"),
      finiteNonNegative(height, "scroll_size height"),
    ]);
    return this;
  };
"##;

const PART_31: &'static str = r##" (value) {
    value = String(value);
    if (!__anchorNames.includes(value)) {
      throw new TypeError(
        "anchor(value) must be one of " +
          __anchorNames.join(", ") +
          "; got " +
          JSON.stringify(value),
      );
    }
    __apply(this.__id, "anchor", [value]);
    return this;
  };
"##;

const PART_32: &'static str = r##" (milliseconds) {
    __apply(this.__id, "frame_budget", [
      finitePositive(milliseconds, "frame_budget"),
    ]);
    return this;
  };
"##;

const PART_33: &'static str = r##" (value) {
    value = String(value);
    if (!["left", "right", "middle"].includes(value)) {
      throw new TypeError(
        "mouse_button(value) must be left, right or middle; got " + JSON.stringify(value),
      );
    }
    __apply(this.__id, "mouse_button", [value]);
    return this;
  };

  const finiteDuration = (value, name) => {
    value = finiteNonNegative(value, name);
    if (value > 86400000) throw new RangeError(name + " must not exceed 86400000 milliseconds");
    return value;
  };
  const delay = (name) =>
    function (ms) {
      __apply(this.__id, name, [finiteDuration(ms, name)]);
      return this;
    };
"##;

const PART_34: &'static str = r##"("open_delay");"##;

const PART_35: &'static str = r##"("close_delay");
"##;

const PART_36: &'static str = r##" (min, max) {
    const args = [finiteNonNegative(min, "size_range min")];
    if (max !== undefined && max !== null) {
      args.push(finiteNonNegative(max, "size_range max"));
    }
    __apply(this.__id, "size_range", args);
    return this;
  };

  const resizablePanel = () => {
    const object = element(__resizable_panel());
    object.size = function (pixels) {
      __apply(this.__id, "panel_size", [finiteNonNegative(pixels, "resizable_panel size")]);
      return this;
    };
    object.visible = function (value) {
      __apply(this.__id, "panel_visible", [Boolean(value)]);
      return this;
    };
    return object;
  };

  const coordinate = (value, name) => {
    if (typeof value === "number" && Number.isFinite(value)) return value;
    if (typeof value === "string" && /^-?(?:\d+(?:\.\d*)?|\.\d+)%$/.test(value)) return value;
    throw new TypeError(name + " must be a finite pixel number or percentage string");
  };

  const background = (kind, values, opacityFactor = 1, colorSpace = "srgb") => Object.freeze({
    __background: true,
    kind,
    values: Object.freeze(values),
    opacityFactor,
    colorSpace,
    opacity(factor) {
      return background(kind, values, finiteNonNegative(factor, "background opacity"), colorSpace);
    },
    color_space(space) {
      space = String(space).toLowerCase();
      if (!['srgb', 'oklab'].includes(space)) throw new TypeError("background color_space must be srgb or oklab");
      return background(kind, values, opacityFactor, space);
    },
  });

  const asBackground = (value) => value?.__background
    ? value
    : background("solid", [String(value)]);"##;

const PART_37: &'static str = r##"

  const pathBuilder = (fill, width) => {
    const commands = [];
    const builder = {};
    const command = (name, arity, coordinateCount = arity) => (...args) => {
      if (args.length < arity) throw new TypeError(name + " expects at least " + arity + " argument(s)");
      for (let index = 0; index < coordinateCount; index++) coordinate(args[index], name + " coordinate");
      commands.push(Object.freeze([name, ...args]));
      return builder;
    };
    builder.move_to = command("move_to", 2);
    builder.line_to = command("line_to", 2);
    builder.curve_to = command("curve_to", 4);
    builder.cubic_bezier_to = command("cubic_bezier_to", 6);
    builder.arc_to = (...args) => {
      if (args.length < 7) throw new TypeError("arc_to expects at least 7 argument(s)");
      coordinate(args[0], "arc x radius");
      coordinate(args[1], "arc y radius");
      if (typeof args[2] !== "number" || !Number.isFinite(args[2])) throw new TypeError("arc rotation must be finite");
      coordinate(args[5], "arc destination x");
      coordinate(args[6], "arc destination y");
      commands.push(Object.freeze(["arc_to", ...args]));
      return builder;
    };
    builder.close = () => { commands.push(Object.freeze(["close"])); return builder; };
    builder.dash_array = (values) => {
      if (fill) throw new TypeError("dash_array is only available on stroke paths");
      if (!Array.isArray(values) || values.some((value) => typeof value !== "number" || !Number.isFinite(value) || Math.fround(value) <= 0)) {
        throw new TypeError("dash_array(values) expects positive finite pixel numbers");
      }
      commands.push(Object.freeze(["dash_array", ...values]));
      return builder;
    };
    builder.add_polygon = (points, closed = true) => {
      if (!Array.isArray(points) || points.length === 0) throw new TypeError("add_polygon(points) expects a non-empty array");
      points.forEach((point, index) => {
        if (!Array.isArray(point) || point.length < 2) throw new TypeError("each polygon point must be [x, y]");
        command(index === 0 ? "move_to" : "line_to", 2)(point[0], point[1]);
      });
      if (closed) builder.close();
      return builder;
    };
    builder.build = () => Object.freeze({
      __path: true,
      fill,
      width,
      commands: Object.freeze(commands.slice()),
    });
    return builder;
  };"##;

const PART_38: &'static str = r##"

  const paintPath = (pathValue, paintValue) => {
    if (!pathValue?.__path) throw new TypeError("window.paint_path(path, background) expects a Path built by PathBuilder");
    const paint = asBackground(paintValue);
    const object = element(__path(
      pathValue.fill,
      paint.kind,
      paint.values.map(String),
      paint.opacityFactor,
      paint.colorSpace,
      pathValue.width,
    ));
    for (const [name, ...args] of pathValue.commands) __apply(object.__id, name, args);
    return object;
  };
"##;

const PART_39: &'static str = r##" (transform) {
    return transform(this);
  };
"##;

const PART_40: &'static str = r##" (condition, branch) {
    if (!condition) return this;
    const produced = branch(this);
    if (produced === undefined || produced === null) {
      throw new Error("when(...) must return the element");
    }
    return produced;
  };

  const inputState = (handle) => ({
    __handle: handle,
    value: () => __input_value(handle),
    set_value: (next) => __input_set_value(handle, String(next ?? "")),
    on: (event, handler) => __input_on(handle, String(event), handler),
    set_step: (step) => __input_set_step(handle, step === null || step === undefined ? null : Number(step)),
    set_min: (min) => __input_set_min(handle, min === null || min === undefined ? null : Number(min)),
    set_max: (max) => __input_set_max(handle, max === null || max === undefined ? null : Number(max)),
    set_masked: (masked) => __input_set_masked(handle, Boolean(masked)),
    set_loading: (loading) => __input_set_loading(handle, Boolean(loading)),
    release: () => __input_release(handle),
  });

  const textareaState = (handle) => ({
    __handle: handle,
    value: () => __textarea_value(handle),
    set_value: (next) => __textarea_set_value(handle, String(next ?? "")),
    on: (event, handler) => __textarea_on(handle, String(event), handler),
    set_rows: (rows) => __textarea_set_rows(handle, oneBased(rows, "set_rows(rows)")),
    set_auto_grow: (min_rows, max_rows) =>
      __textarea_set_auto_grow(
        handle,
        oneBased(min_rows, "set_auto_grow(min_rows, max_rows) min_rows"),
        oneBased(max_rows, "set_auto_grow(min_rows, max_rows) max_rows"),
      ),
    set_soft_wrap: (wrap) => __textarea_set_soft_wrap(handle, Boolean(wrap)),
    release: () => __textarea_release(handle),
  });

  const sliderValue = (values) => (values.length === 1 ? values[0] : values);
  const sliderValues = (value, api) => {
    const finite = (each) => typeof each === "number" && Number.isFinite(each);
    if (Array.isArray(value)) {
      if (value.length !== 2 || !value.every(finite)) {
        throw new TypeError(api + " expects a finite number, or a pair [start, end] of them");
      }
      return [value[0], value[1]];
    }
    if (!finite(value)) {
      throw new TypeError(api + " expects a finite number, or a pair [start, end] of them");
    }
    return [value];
  };"##;

const PART_41: &'static str = r##"

  const sliderState = (handle) => ({
    __handle: handle,
    value: () => sliderValue(__slider_value(handle)),
    set_value: (next) => __slider_set_value(handle, sliderValues(next, "set_value(value)")),
    min_value: () => __slider_bounds(handle)[0],
    max_value: () => __slider_bounds(handle)[1],
    step_value: () => __slider_bounds(handle)[2],
    on: (event, handler) => __slider_on(handle, String(event), handler),
    release: () => __slider_release(handle),
  });

  const otpState = (handle) => ({
    __handle: handle,
    value: () => __otp_value(handle),
    set_value: (next) => __otp_set_value(handle, String(next ?? "")),
    len: () => __otp_len(handle),
    is_masked: () => __otp_is_masked(handle),
    set_masked: (masked) => __otp_set_masked(handle, Boolean(masked)),
    focus: () => __otp_focus(handle),
    on: (event, handler) => __otp_on(handle, String(event), handler),
    release: () => __otp_release(handle),
  });

  const calendarDate = (parts) => {
    if (parts.length === 2) return [parts[0] ?? null, parts[1] ?? null];
    return parts[0] ?? null;
  };
  const calendarParts = (value, api) => {
    if (value === null || value === undefined) return [null];
    if (Array.isArray(value)) {
      if (value.length !== 2) {
        throw new TypeError(`${api} range expects a two-element array [start, end]`);
      }
      return [value[0] ?? null, value[1] ?? null];
    }
    if (typeof value !== "string") {
      throw new TypeError(`${api} expects null, a "YYYY-MM-DD" string, or a pair of those`);
    }
    return [value];
  };
  const calendarState = (handle) => ({
    __handle: handle,
    month_days: () => __calendar_month_days(handle),
    year: () => __calendar_year(handle),
    month: () => __calendar_month(handle),
    today: () => __calendar_today(handle),
    value: () => calendarDate(__calendar_value(handle)),
    set_value: (next) => __calendar_set_value(handle, calendarParts(next, "set_value(value)")),
    next_month: () => __calendar_next_month(handle),
    prev_month: () => __calendar_prev_month(handle),
    on: (event, handler) =>
      __calendar_on(handle, String(event), (parts, cx) => handler(calendarDate(parts), cx)),
    release: () => __calendar_release(handle),
  });"##;

const PART_42: &'static str = r##"

  const focusHandle = (handle) => ({
    __handle: handle,
    focus: () => __focus_focus(handle),
    is_focused: () => __focus_is_focused(handle),
    release: () => __focus_release(handle),
  });

  const entity = (handle) => ({
    __entity: true,
    __handle: handle,
    set_props: (props) => __view_set_props(handle, props),
    release: () => __view_release(handle),
  });

  const dockPlacement = (value, api) => {
    const name = String(value ?? "center");
    if (!["center", "left", "right", "bottom"].includes(name)) {
      throw new TypeError(api + ' expects "center", "left", "right" or "bottom"');
    }
    return name;
  };

  const wholeAt = (value, api) => {
    if (!Number.isSafeInteger(value) || value < 0) {
      throw new TypeError(api + " expects a whole, non-negative position");
    }
    return value;
  };

  const finiteDockNumber = (value, api) => {
    if (typeof value !== "number" || !Number.isFinite(value)) {
      throw new TypeError(api + " expects a finite number");
    }
    return value;
  };

  const nonNegativeDockNumber = (value, api) => {
    const number = finiteDockNumber(value, api);
    if (number < 0) throw new RangeError(api + " expects a non-negative number");
    return number;
  };

  const dockBounds = (value) => {
    const api = "add_panel(view, options) bounds";
    if (value === undefined || value === null) return null;
    if (typeof value !== "object") throw new TypeError(api + " expects an object");
    return {
      x: finiteDockNumber(value.x, api + ".x"),
      y: finiteDockNumber(value.y, api + ".y"),
      width: nonNegativeDockNumber(value.width, api + ".width"),
      height: nonNegativeDockNumber(value.height, api + ".height"),
    };
  };

  const dockTarget = (value, api) => {
    const handle = value?.__dock;
    if (typeof handle !== "number") {
      throw new TypeError(
        api + " expects the group, dock or tile your chrome handler was given as its first argument",
      );
    }
    return handle;
  };

  const groupNode = (group, api) => {
    if (typeof group?.node !== "number") {
      throw new TypeError(api + " expects a tab group, which is what tab_bar and empty_group are given");
    }
    return group.node;
  };"##;

const PART_43: &'static str = r##"

  const tilePanel = (tile, api) => {
    if (typeof tile?.panel?.id !== "number") {
      throw new TypeError(api + " expects a tile, which is what tile_drag_bar and tile_resize_handles are given");
    }
    return tile.panel.id;
  };
"##;

const PART_44: &'static str = r##" (group, index) {
    const api = "select_tab(group, index)";
    __apply(this.__id, "select_tab", [dockTarget(group, api), groupNode(group, api), wholeAt(index, api)]);
    return this;
  };"##;

const PART_45: &'static str = r##" (group, panel) {
    const api = "close_panel(group, panel_id)";
    __apply(this.__id, "close_panel", [dockTarget(group, api), groupNode(group, api), Number(panel)]);
    return this;
  };"##;

const PART_46: &'static str = r##" (group) {
    const api = "toggle_zoom(group)";
    __apply(this.__id, "toggle_zoom", [dockTarget(group, api), groupNode(group, api)]);
    return this;
  };"##;

const PART_47: &'static str = r##" (group, index) {
    const api = "drag_tab(group, index)";
    __apply(this.__id, "drag_tab", [dockTarget(group, api), groupNode(group, api), wholeAt(index, api)]);
    return this;
  };"##;

const PART_48: &'static str = r##" (group, index) {
    const api = "drop_tab(group, index)";
    const at = index === undefined || index === null ? null : wholeAt(index, api);
    __apply(this.__id, "drop_tab", [dockTarget(group, api), groupNode(group, api), at]);
    return this;
  };"##;

const PART_49: &'static str = r##" (dock) {
    const api = "toggle_dock(dock)";
    __apply(this.__id, "toggle_dock", [dockTarget(dock, api), dockPlacement(dock?.placement, api)]);
    return this;
  };"##;

const PART_50: &'static str = r##" (dock) {
    const api = "resize_dock(dock)";
    __apply(this.__id, "resize_dock", [dockTarget(dock, api), dockPlacement(dock?.placement, api)]);
    return this;
  };"##;

const PART_51: &'static str = r##" (tile) {
    const api = "move_tile(tile)";
    __apply(this.__id, "move_tile", [dockTarget(tile, api), tilePanel(tile, api)]);
    return this;
  };"##;

const PART_52: &'static str = r##" (tile, side) {
    const api = "resize_tile(tile, side)";
    const name = String(side ?? "");
    if (!["left", "right", "top", "bottom", "bottom_right"].includes(name)) {
      throw new TypeError(api + ' expects "left", "right", "top", "bottom" or "bottom_right"');
    }
    __apply(this.__id, "resize_tile", [dockTarget(tile, api), tilePanel(tile, api), name]);
    return this;
  };"##;

const PART_53: &'static str = r##" (tile) {
    const api = "raise_tile(tile)";
    __apply(this.__id, "raise_tile", [dockTarget(tile, api), tilePanel(tile, api)]);
    return this;
  };"##;

const PART_54: &'static str = r##" (tile) {
    const api = "toggle_tile_zoom(tile)";
    __apply(this.__id, "toggle_tile_zoom", [dockTarget(tile, api), tilePanel(tile, api)]);
    return this;
  };"##;

const PART_55: &'static str = r##" (tile) {
    const api = "close_tile(tile)";
    __apply(this.__id, "close_tile", [dockTarget(tile, api), tilePanel(tile, api)]);
    return this;
  };

  const DOCK_CHROME = [
    "tab_bar",
    "empty_group",
    "drop_indicator",
    "dock",
    "tile_drag_bar",
    "tile_resize_handles",
  ];

  const dockAreaElement = (area) => {
    const handle = area?.__dock;
    if (typeof handle !== "number") {
      throw new TypeError("dock_area(area) expects a DockArea from DockArea.new(id)");
    }
    const object = element(__dock_area_element(handle));
    for (const hook of DOCK_CHROME) {
      object[hook] = function (handler) {
        if (typeof handler !== "function") {
          throw new TypeError(hook + "(handler) expects a function returning an element");
        }
        __apply(this.__id, hook, [
          (payload, cx) => {
            payload.__dock = handle;
            return handler(payload, cx);
          },
        ]);
        return this;
      };
    }
    return object;
  };

  const dockArea = (handle) => ({
    __dock: handle,
    __handle: handle,
    add_panel: (view, options) => {
      if (typeof view?.__handle !== "number" || !view.__entity) {
        throw new TypeError(
          "add_panel(view, options) expects a view from cx.new(Class): a panel's body is a view, not an element",
        );
      }
      const settings = options ?? {};
      if (typeof settings.name !== "string" || settings.name.length === 0) {
        throw new TypeError(
          "add_panel(view, options) needs a name: it is what the panel is filed under in a saved layout, and what register_panel finds it again by",
        );
      }
      __dock_add_panel(handle, view.__handle, {
        name: settings.name,
        placement: dockPlacement(settings.placement, "add_panel placement"),
        size:
          settings.size === undefined || settings.size === null
            ? null
            : nonNegativeDockNumber(settings.size, "add_panel(view, options) size"),
        bounds: dockBounds(settings.bounds),
        closable: settings.closable === undefined ? true : Boolean(settings.closable),
        zoomable: settings.zoomable === undefined ? true : Boolean(settings.zoomable),
        visible: settings.visible === undefined ? true : Boolean(settings.visible),
      });
    },
    remove_panel: (id) => __dock_remove_panel(handle, wholeAt(id, "remove_panel(id)")),"##;

const PART_56: &'static str = r##"
    panels: () => JSON.parse(__dock_panels(handle)),
    dump: () => JSON.parse(__dock_dump(handle)),
    load: (state) => __dock_load(handle, state),
    has_dock: (placement) => __dock_has(handle, dockPlacement(placement, "has_dock(placement)")),
    is_dock_open: (placement) =>
      __dock_is_open(handle, dockPlacement(placement, "is_dock_open(placement)")),
    toggle_dock: (placement) =>
      __dock_toggle(handle, dockPlacement(placement, "toggle_dock(placement)")),
    remove_dock: (placement) =>
      __dock_remove(handle, dockPlacement(placement, "remove_dock(placement)")),
    dock_size: (placement) => __dock_size(handle, dockPlacement(placement, "dock_size(placement)")),
    set_dock_size: (placement, size) =>
      __dock_set_size(
        handle,
        dockPlacement(placement, "set_dock_size(placement, size)"),
        nonNegativeDockNumber(size, "set_dock_size(placement, size)"),
      ),
    set_dock_collapsible: (placement, collapsible) =>
      __dock_set_collapsible(
        handle,
        dockPlacement(placement, "set_dock_collapsible(placement, collapsible)"),
        Boolean(collapsible),
      ),
    is_locked: () => __dock_is_locked(handle),
    set_locked: (locked) => __dock_set_locked(handle, Boolean(locked)),
    is_zoomed: () => __dock_is_zoomed(handle),
    zoom_out: () => __dock_zoom_out(handle),
    on: (event, handler) => __dock_on(handle, String(event), handler),
    release: () => __dock_release(handle),
  });

  const virtualScrollHandle = (handle) => ({
    __handle: handle,
    scroll_to_item: (index, strategy) => {
      if (!Number.isInteger(index) || index < 0) {
        throw new TypeError("scroll_to_item(index) needs a whole, non-negative index");
      }
      __virtual_scroll_to_item(handle, index, String(strategy ?? "top"));
    },
    scroll_to_bottom: () => __virtual_scroll_to_bottom(handle),
    release: () => __virtual_scroll_release(handle),
  });"##;

const PART_57: &'static str = r##"

  let deferInit = false;
  globalThis.__construct = (Class) => {
    deferInit = true;
    try {
      return new Class();
    } finally {
      deferInit = false;
    }
  };
  globalThis.__initialize = (instance, props) => {
    if (typeof instance.init === "function") instance.init(props, __async_cx());
  };
  globalThis.__checkpoint_view = (instance) => {
    const snapshots = [];
    const seen = new Set();
    const pending = [instance];
    let propertyCount = 0;
    while (pending.length > 0) {
      const value = pending.pop();
      if (
        value === null ||
        (typeof value !== "object" && typeof value !== "function") ||
        seen.has(value)
      ) continue;
      if (snapshots.length >= 10_000) {
        throw new RangeError("a nested view update reached the 10,000-object rollback limit");
      }
      seen.add(value);
      const descriptors = Object.getOwnPropertyDescriptors(value);
      const keys = Reflect.ownKeys(descriptors);
      propertyCount += keys.length;
      if (propertyCount > 100_000) {
        throw new RangeError("a nested view update reached the 100,000-property rollback limit");
      }
      snapshots.push([value, descriptors]);
      for (const key of keys) {
        const descriptor = descriptors[key];
        if (Object.prototype.hasOwnProperty.call(descriptor, "value")) {
          pending.push(descriptor.value);
        }
      }
    }
    return () => {
      for (let index = snapshots.length - 1; index >= 0; index -= 1) {
        const [value, descriptors] = snapshots[index];
        const saved = new Set(Reflect.ownKeys(descriptors));
        for (const key of Reflect.ownKeys(value)) {
          if (!saved.has(key)) {
            const current = Object.getOwnPropertyDescriptor(value, key);
            if (current?.configurable) delete value[key];
          }
        }
        Object.defineProperties(value, descriptors);
      }
    };
  };

  class View {
    constructor(props) {
      if (!deferInit && typeof this.init === "function") this.init(props, __async_cx());
    }
  }

  const contentView = (build, api) => {
    if (typeof build !== "function") {
      throw new TypeError(
        api + " takes a function returning an element, not an element and not a view class",
      );
    }
    return { render: () => build() };
  };"##;

const PART_58: &'static str = r##"

  const storage = (session) => ({
    get length() {
      return __storage_length(session);
    },
    key: (index) => {
      const at = Number(index);
      return Number.isInteger(at) && at >= 0 ? __storage_key(session, at) : null;
    },
    getItem: (key) => __storage_get(session, String(key)),
    setItem: (key, value) => __storage_set(session, String(key), String(value)),
    removeItem: (key) => __storage_remove(session, String(key)),
    clear: () => __storage_clear(session),
    flush: () => __storage_flush(session),
  });

  globalThis.window = {
    open_dialog: (build, options) =>
      __open_dialog(contentView(build, "window.open_dialog"), options ?? undefined),
    close_dialog: () => __close_dialog(),
    close_all_dialogs: () => __close_all_dialogs(),
    has_active_dialog: () => __has_active_dialog(),

    open_sheet: (build) => __open_sheet(undefined, contentView(build, "window.open_sheet")),
    open_sheet_at: (placement, build) =>
      __open_sheet(String(placement), contentView(build, "window.open_sheet_at")),
    close_sheet: () => __close_sheet(),
    has_active_sheet: () => __has_active_sheet(),

    push_toast: (options) => __push_toast(options),
    remove_toast: (id) => __remove_toast(String(id)),
    clear_toasts: () => __clear_toasts(),

    localStorage: storage(false),
    sessionStorage: storage(true),

    paint_path: paintPath,

    rem_size: () => __window_rem_size(),
    line_height: () => __window_line_height(),
    viewport_size: () => __window_viewport_size(),
    bounds: () => __window_bounds(),
    mouse_position: () => __window_mouse_position(),
    appearance: () => __window_appearance(),
    is_window_active: () => __window_is_active(),
    is_fullscreen: () => __window_is_fullscreen(),
    is_maximized: () => __window_is_maximized(),

    dispatch_action: (action) => __dispatch_action(String(action)),

    set_rem_size: (size) => __window_set_rem_size(Number(size)),
    refresh: () => __window_refresh(),
    focus_next: () => __window_focus_next(),
    focus_prev: () => __window_focus_prev(),
    activate_window: () => __window_activate(),
    minimize_window: () => __window_minimize(),
    zoom_window: () => __window_zoom(),
    toggle_fullscreen: () => __window_toggle_fullscreen(),
  };

  globalThis.localStorage = globalThis.window.localStorage;
  globalThis.sessionStorage = globalThis.window.sessionStorage;"##;

const PART_59: &'static str = r##"

  let cachedThemeSource;
  let cachedTheme;
  let cachedThemeRevision = -1;
  globalThis.__theme_dirty = true;
  const refreshTheme = () => {
    const revision = __theme_revision();
    if (!globalThis.__theme_dirty && revision === cachedThemeRevision) return;
    const source = __theme_snapshot();
    if (source !== cachedThemeSource) {
      cachedThemeSource = source;
      cachedTheme = JSON.parse(source);
      Object.freeze(cachedTheme.colors);
      Object.freeze(cachedTheme.spacing);
      Object.freeze(cachedTheme.radius);
      Object.freeze(cachedTheme);
    }
    cachedThemeRevision = revision;
    globalThis.__theme_dirty = false;
  };
  globalThis.__prepare_theme = refreshTheme;
  const currentTheme = () => {
    if (globalThis.__theme_dirty || cachedTheme === undefined) refreshTheme();
    return cachedTheme;
  };

  const contextMembers = (check) => ({
    theme: () => {
      check();
      return currentTheme();
    },
    open_url: (url) => {
      check();
      return __open_url(String(url));
    },
    read_from_clipboard: () => {
      check();
      return __clipboard_read_text();
    },
    write_to_clipboard: (text) => {
      check();
      return __clipboard_write_text(String(text));
    },
    focus_handle: () => {
      check();
      return focusHandle(__focus_handle_new());
    },
    bind_keys: (bindings) => {
      check();
      if (!Array.isArray(bindings)) {
        throw new TypeError(
          "cx.bind_keys(bindings) expects an array of { keystroke, action, context? }",
        );
      }
      return __bind_keys(bindings);
    },
    new: (Class, props) => {
      check();
      if (typeof Class !== "function" || !(Class.prototype instanceof View)) {
        throw new TypeError("cx.new(Class, props) expects a View subclass");
      }
      return entity(__view_new(Class, props));
    },
    spawn: (body, opts) => {
      check();
      return __spawn(body, opts);
    },
    sleep: (ms) => {
      check();
      return __sleep(ms);
    },
    timer: {
      after: (ms, handler, opts) => {
        check();
        return __timer_after(ms, handler, opts);
      },
      every: (ms, handler, opts) => {
        check();
        return __timer_every(ms, handler, opts);
      },
    },
  });"##;

const PART_60: &'static str = r##"

  const templateSlot = (index) => {
    const refuse = () => {
      throw new TypeError(
        "a template argument can be passed to a builder call but not computed on. " +
          "Format or compare the value where the template is called, and pass the result",
      );
    };
    return {
      __slot: index,
      toString: refuse,
      valueOf: refuse,
      [Symbol.toPrimitive]: refuse,
    };
  };

  const template = (build) => {
    if (typeof build !== "function") {
      throw new TypeError("template(build) expects a function that builds one element");
    }
    let id = -1;
    return (...args) => {
      if (id < 0) {
        const slots = [];
        for (let i = 0; i < build.length; i += 1) slots.push(templateSlot(i));
        __template_begin(build.length);
        let root;
        try {
          root = build(...slots);
        } catch (error) {
          __template_abort();
          throw error;
        }
        id = __template_end(root?.__id);
      }
      return element(__template_instantiate(id, args));
    };
  };

  globalThis.__template = template;

  return {
    __element: element,
    View,
    div: () => element(__div()),
    h_flex: () => element(__h_flex()),
    v_flex: () => element(__v_flex()),
    svg: (path) => element(__svg(String(path))),
    image: (path) => element(__image(String(path))),
    PathBuilder: {
      fill: () => pathBuilder(true, 0),
      stroke: (width) => pathBuilder(false, finitePositive(width, "stroke width")),
    },
    Background: {
      solid: (color) => background("solid", [String(color)]),
      stop: (color, percentage) => {
        if (typeof percentage !== "number" || !Number.isFinite(percentage)) throw new TypeError("background stop percentage must be finite");
        return Object.freeze({ __backgroundStop: true, color: String(color), percentage });
      },
      linear_gradient: (angle, from, to) => {
        angle = Number(angle);
        if (!Number.isFinite(angle)) throw new TypeError("linear gradient angle must be finite");
        const stop = (value, fallback, name) => {
          if (typeof value === "string") return [value, fallback];
          if (!value?.__backgroundStop) throw new TypeError(name + " must be a color or Background.stop(color, percentage)");
          return [value.color, value.percentage];
        };
        const a = stop(from, 0, "gradient from stop");"##;

const PART_61: &'static str = r##"
        const b = stop(to, 1, "gradient to stop");
        return background("linear-gradient", [String(angle), a[0], String(a[1]), b[0], String(b[1])]);
      },
      pattern_slash: (color, width, interval) => background("pattern-slash", [
        String(color),
        String(finitePositive(width, "pattern width")),
        String(finitePositive(interval, "pattern interval")),
      ]),
      checkerboard: (color, size) => background("checkerboard", [
        String(color),
        String(finitePositive(size, "checkerboard size")),
      ]),
    },
    component: (module, name) => ({
      new: (id, props) => {
        if (typeof id !== "string" || id.length === 0) {
          throw new TypeError("a component needs a non-empty string id");
        }
        return element(__component(String(module), String(name), id, props ?? {}));
      },
    }),
    __context_members: contextMembers,
    Button: { new: (id) => element(__button(String(id))) },
    Link: { new: (id) => element(__link(String(id))) },
    Checkbox: { new: (id) => element(__checkbox(String(id))) },
    Switch: { new: (id) => element(__switch(String(id))) },
    Tabs: { new: (id) => element(__tabs(String(id))) },
    Tab: { new: (id) => element(__tab(String(id))) },
    Progress: { new: (id) => element(__progress(String(id))) },
    Accordion: { new: (id) => element(__accordion(String(id))) },
    AccordionItem: { new: () => element(__accordion_item()) },
    AccordionHeader: {
      new: (trigger) => {
        if (typeof trigger?.__id !== "number") {
          throw new TypeError(
            "AccordionHeader.new(trigger) expects an AccordionTrigger element: the heading owns the button that opens the item, and base has none of its own",
          );
        }
        return element(__accordion_header()).trigger(trigger);
      },
    },
    AccordionPanel: { new: () => element(__accordion_panel()) },
    AccordionTrigger: { new: (id) => element(__accordion_trigger(String(id))) },
    Pagination: { new: (id) => element(__pagination(String(id))) },
    pagination_items: (current_page, total_pages, visible_pages) =>
      __pagination_items(
        Number(current_page),
        Number(total_pages),
        visible_pages === undefined ? 7 : Number(visible_pages),
      ),
    Avatar: { new: () => element(__avatar()) },
    AvatarImage: { new: (path) => element(__avatar_image(String(path))) },"##;

const PART_62: &'static str = r##"
    AvatarFallback: { new: () => element(__avatar_fallback()) },
    ProgressTrack: { new: () => element(__progress_track()) },
    ProgressIndicator: { new: () => element(__progress_indicator()) },
    fps_monitor: () => element(__fps_monitor()),
    show_fps_monitor: (options) => __show_fps_monitor(options),
    hide_fps_monitor: () => __hide_fps_monitor(),
    fps_monitor_visible: () => __fps_monitor_visible(),
    Radio: { new: (id) => element(__radio(String(id))) },
    Toggle: { new: (id) => element(__toggle(String(id))) },
    RadioGroup: { new: (id) => element(__radio_group(String(id))) },
    ToggleGroup: { new: (id) => element(__toggle_group(String(id))) },
    Table: { new: (id) => element(__table(String(id))) },
    TableHeader: { new: (id) => element(__table_header(String(id))) },
    TableBody: { new: (id) => element(__table_body(String(id))) },
    TableCaption: { new: (id) => element(__table_caption(String(id))) },
    h_resizable: (id) => element(__h_resizable(String(id))),
    v_resizable: (id) => element(__v_resizable(String(id))),
    resizable_panel: resizablePanel,
    TableRow: {
      new: (id, row_index) =>
        element(__table_row(String(id), oneBased(row_index, "TableRow.new row index"))),
    },
    TableHead: {
      new: (id, column_index) =>
        element(__table_head(String(id), oneBased(column_index, "TableHead.new column index"))),
    },
    TableCell: {
      new: (id, column_index) =>
        element(__table_cell(String(id), oneBased(column_index, "TableCell.new column index"))),
    },
    Collapsible: { new: () => element(__collapsible()) },
    Popover: { new: (id) => element(__popover(String(id))) },
    HoverCard: { new: (id) => element(__hover_card(String(id))) },
    Popup: {
      new: (id, trigger) => {
        if (typeof trigger?.__id !== "number") {
          throw new TypeError(
            "Popup.new(id, trigger) expects the trigger element; a popup anchors its content to the trigger's bounds, so it cannot be built without one",
          );
        }
        return element(__popup(String(id))).trigger(trigger);
      },
    },
    Select: { new: (id) => element(__select(String(id))) },
    Combobox: { new: (id) => element(__combobox(String(id))) },
    DatePicker: {
      new: (id, focus_handle) => {
        if (typeof focus_handle?.__handle !== "number") {
          throw new TypeError("##;

const PART_63: &'static str = r##"
            "DatePicker.new(id, focus_handle) expects a FocusHandle from cx.focus_handle(); the picker takes the keyboard through that handle, and base has no builder to supply one later",
          );
        }
        return element(__date_picker(String(id), focus_handle.__handle));
      },
    },
    v_virtual_list: virtualList(__v_virtual_list, "v_virtual_list"),
    h_virtual_list: virtualList(__h_virtual_list, "h_virtual_list"),
    list: lazyList(__list, "list", true),
    uniform_list: lazyList(__uniform_list, "uniform_list", false),
    VirtualListScrollHandle: { new: () => virtualScrollHandle(__virtual_scroll_new()) },
    Scrollbar: {
      new: (id) => element(__scrollbar(String(id))),
      horizontal: (id) => element(__scrollbar(String(id))).axis("horizontal"),
      vertical: (id) => element(__scrollbar(String(id))).axis("vertical"),
    },
    InputState: {
      new: (options) =>
        inputState(__input_state_new(options?.placeholder ?? null, options?.value ?? null)),
    },
    Input: { new: (state) => element(__input_element(state.__handle)) },

    NumberInput: {
      new: (state) => element(__number_input_element(state.__handle)),
    },
    TextareaState: {
      new: (options) =>
        textareaState(
          __textarea_state_new(
            options?.placeholder ?? null,
            options?.value ?? null,
            options?.rows === undefined || options?.rows === null
              ? null
              : oneBased(options.rows, "TextareaState.new rows"),
          ),
        ),
    },
    Textarea: { new: (state) => element(__textarea_element(state.__handle)) },
    TextView: {
      html: (id, text) => element(__text_view(String(id), String(text), "html")),
      markdown: (id, text) => element(__text_view(String(id), String(text), "markdown")),
    },
    CalendarState: { new: () => calendarState(__calendar_state_new()) },
    SliderState: {
      new: (options) => {
        const settings = options ?? {};
        const min = settings.min ?? 0;
        const max = settings.max ?? 100;
        const step = settings.step ?? 1;
        const scale = String(settings.scale ?? "linear");
        for (const [name, value] of [["min", min], ["max", max], ["step", step]]) {
          if (typeof value !== "number" || !Number.isFinite(value)) {
            throw new TypeError("SliderState.new " + name + " must be a finite number");
          }
        }"##;

const PART_64: &'static str = r##"
        if (max <= min) throw new TypeError("SliderState.new needs a max greater than its min");
        if (step <= 0) throw new TypeError("SliderState.new step must be greater than 0");
        if (!["linear", "logarithmic"].includes(scale)) {
          throw new TypeError("SliderState.new scale must be linear or logarithmic");
        }
        if (scale === "logarithmic" && min <= 0) {
          throw new TypeError("SliderState.new with a logarithmic scale needs a min greater than 0");
        }
        return sliderState(
          __slider_state_new(
            min,
            max,
            step,
            scale,
            sliderValues(settings.value ?? min, "SliderState.new value"),
          ),
        );
      },
    },
    Slider: { new: (state) => element(__slider_element(state.__handle)) },
    SliderTrack: { new: (state) => element(__slider_track_element(state.__handle)) },
    SliderIndicator: { new: (state) => element(__slider_indicator_element(state.__handle)) },
    SliderThumb: { new: (state) => element(__slider_thumb_element(state.__handle)) },
    OtpState: {
      new: (length, options) => {
        if (!Number.isInteger(length) || length < 1 || length > 64) {
          throw new TypeError("OtpState.new(length) expects a whole number between 1 and 64");
        }
        const settings = options ?? {};
        return otpState(
          __otp_state_new(length, settings.value ?? null, Boolean(settings.masked)),
        );
      },
    },
    OtpInput: { new: (state) => element(__otp_element(state.__handle)) },
    DockArea: {
      new: (id, options) => {
        const version = options?.version;
        if (version !== undefined && version !== null && (!Number.isSafeInteger(version) || version < 0)) {
          throw new TypeError("DockArea.new(id, options) version expects a whole, non-negative safe integer");
        }
        return dockArea(__dock_area_new(String(id), version ?? null));
      },
      register_panel: (name, Class) => {
        if (typeof name !== "string" || name.length === 0) {
          throw new TypeError(
            "DockArea.register_panel(name, Class) needs the name the panel is added under",
          );
        }
        if (typeof Class !== "function" || !(Class.prototype instanceof View)) {
          throw new TypeError(
            "DockArea.register_panel(name, Class) expects the View subclass the panel is rebuilt from",
          );
        }"##;

const PART_65: &'static str = r##"
        return __dock_register_panel(name, Class);
      },
    },
    dock_area: dockAreaElement,
    dock_content: () => element(__dock_content()),
  };
})();"##;

/// The prelude up to the place where the methods are installed that have no definition of their own.
#[verifier::opaque]
spec fn text_0() -> Seq<char> {
    PART_1@ + "\n  "@ + DISPATCH@
}

#[verifier::opaque]
spec fn text_1() -> Seq<char> {
    text_0()
        + PART_2@
        + prelude::method_text("child"@, "function"@)
        + PART_3@
        + prelude::method_text("children"@, "function"@)
        + PART_4@
        + prelude::method_text("content"@, "slot"@)
        + PART_5@
        + prelude::method_text("trigger"@, "slot"@)
        + PART_6@
        + prelude::method_text("input"@, "slot"@)
        + PART_7@
        + prelude::method_text("decrement_button"@, "slot"@)
        + PART_8@
        + prelude::method_text("increment_button"@, "slot"@)
        + PART_9@
        + prelude::method_text("image"@, "slot"@)
}

#[verifier::opaque]
spec fn text_2() -> Seq<char> {
    text_1()
        + PART_10@
        + prelude::method_text("fallback"@, "slot"@)
        + PART_11@
        + prelude::method_text("header"@, "slot"@)
        + PART_12@
        + prelude::method_text("footer"@, "slot"@)
        + PART_13@
        + prelude::method_text("panel"@, "slot"@)
        + PART_14@
        + prelude::method_text("track_focus"@, "function"@)
        + PART_15@
        + prelude::method_text("track_scroll"@, "function"@)
        + PART_16@
        + prelude::method_text("content_focus_handle"@, "function"@)
        + PART_17@
        + prelude::method_text("hover"@, "state"@)
}

#[verifier::opaque]
spec fn text_3() -> Seq<char> {
    text_2()
        + PART_18@
        + prelude::method_text("active"@, "state"@)
        + PART_19@
        + prelude::method_text("focus"@, "state"@)
        + PART_20@
        + prelude::method_text("range_style"@, "state"@)
        + PART_21@
        + prelude::method_text("cell_style"@, "state"@)
        + PART_22@
        + prelude::method_text("cell_active_style"@, "state"@)
        + PART_23@
        + prelude::method_text("caret_style"@, "state"@)
        + PART_24@
        + PART_25@
        + prelude::method_text("transition"@, "function"@)
        + PART_26@
        + prelude::method_text("spring"@, "function"@)
}

#[verifier::opaque]
spec fn text_4() -> Seq<char> {
    text_3()
        + PART_27@
        + prelude::method_text("axis"@, "function"@)
        + PART_28@
        + prelude::method_text("mode"@, "function"@)
        + PART_29@
        + prelude::method_text("scroll_size"@, "function"@)
        + PART_30@
        + prelude::method_text("anchor"@, "function"@)
        + PART_31@
        + prelude::method_text("frame_budget"@, "function"@)
        + PART_32@
        + prelude::method_text("mouse_button"@, "function"@)
        + PART_33@
        + prelude::method_text("open_delay"@, "delay"@)
        + PART_34@
        + prelude::method_text("close_delay"@, "delay"@)
}

#[verifier::opaque]
spec fn text_5() -> Seq<char> {
    text_4()
        + PART_35@
        + prelude::method_text("size_range"@, "function"@)
        + PART_36@
        + PART_37@
        + PART_38@
        + prelude::method_text("map"@, "function"@)
        + PART_39@
        + prelude::method_text("when"@, "function"@)
        + PART_40@
        + PART_41@
        + PART_42@
        + PART_43@
        + prelude::method_text("select_tab"@, "function"@)
        + PART_44@
        + prelude::method_text("close_panel"@, "function"@)
        + PART_45@
        + prelude::method_text("toggle_zoom"@, "function"@)
        + PART_46@
        + prelude::method_text("drag_tab"@, "function"@)
        + PART_47@
        + prelude::method_text("drop_tab"@, "function"@)
}

#[verifier::opaque]
spec fn text_6() -> Seq<char> {
    text_5()
        + PART_48@
        + prelude::method_text("toggle_dock"@, "function"@)
        + PART_49@
        + prelude::method_text("resize_dock"@, "function"@)
        + PART_50@
        + prelude::method_text("move_tile"@, "function"@)
        + PART_51@
        + prelude::method_text("resize_tile"@, "function"@)
        + PART_52@
        + prelude::method_text("raise_tile"@, "function"@)
        + PART_53@
        + prelude::method_text("toggle_tile_zoom"@, "function"@)
        + PART_54@
        + prelude::method_text("close_tile"@, "function"@)
        + PART_55@
        + PART_56@
        + PART_57@
        + PART_58@
        + PART_59@
        + PART_60@
        + PART_61@
        + PART_62@
        + PART_63@
        + PART_64@
        + PART_65@
}

/// The prelude.
pub closed spec fn prelude_text() -> Seq<char> {
    text_6() + "\n"@
}

/// Adds the definition of a method: its name, and what it is.
fn add_method(source: &mut String, name: &str, made: &str)
    ensures
        final(source)@ == old(source)@ + prelude::method_text(name@, made@),
{
    source.append("\n  methods.");
    source.append(name);
    source.append(" = ");
    source.append(made);
    assert(source@ =~= old(source)@ + prelude::method_text(name@, made@));
}

fn add_1(source: &mut String)
    requires
        old(source)@ == text_0(),
    ensures
        final(source)@ == text_1(),
{
    reveal(text_1);
    source.append(PART_2);
    add_method(source, "child", "function");
    source.append(PART_3);
    add_method(source, "children", "function");
    source.append(PART_4);
    add_method(source, "content", "slot");
    source.append(PART_5);
    add_method(source, "trigger", "slot");
    source.append(PART_6);
    add_method(source, "input", "slot");
    source.append(PART_7);
    add_method(source, "decrement_button", "slot");
    source.append(PART_8);
    add_method(source, "increment_button", "slot");
    source.append(PART_9);
    add_method(source, "image", "slot");
}

fn add_2(source: &mut String)
    requires
        old(source)@ == text_1(),
    ensures
        final(source)@ == text_2(),
{
    reveal(text_2);
    source.append(PART_10);
    add_method(source, "fallback", "slot");
    source.append(PART_11);
    add_method(source, "header", "slot");
    source.append(PART_12);
    add_method(source, "footer", "slot");
    source.append(PART_13);
    add_method(source, "panel", "slot");
    source.append(PART_14);
    add_method(source, "track_focus", "function");
    source.append(PART_15);
    add_method(source, "track_scroll", "function");
    source.append(PART_16);
    add_method(source, "content_focus_handle", "function");
    source.append(PART_17);
    add_method(source, "hover", "state");
}

fn add_3(source: &mut String)
    requires
        old(source)@ == text_2(),
    ensures
        final(source)@ == text_3(),
{
    reveal(text_3);
    source.append(PART_18);
    add_method(source, "active", "state");
    source.append(PART_19);
    add_method(source, "focus", "state");
    source.append(PART_20);
    add_method(source, "range_style", "state");
    source.append(PART_21);
    add_method(source, "cell_style", "state");
    source.append(PART_22);
    add_method(source, "cell_active_style", "state");
    source.append(PART_23);
    add_method(source, "caret_style", "state");
    source.append(PART_24);
    source.append(PART_25);
    add_method(source, "transition", "function");
    source.append(PART_26);
    add_method(source, "spring", "function");
}

fn add_4(source: &mut String)
    requires
        old(source)@ == text_3(),
    ensures
        final(source)@ == text_4(),
{
    reveal(text_4);
    source.append(PART_27);
    add_method(source, "axis", "function");
    source.append(PART_28);
    add_method(source, "mode", "function");
    source.append(PART_29);
    add_method(source, "scroll_size", "function");
    source.append(PART_30);
    add_method(source, "anchor", "function");
    source.append(PART_31);
    add_method(source, "frame_budget", "function");
    source.append(PART_32);
    add_method(source, "mouse_button", "function");
    source.append(PART_33);
    add_method(source, "open_delay", "delay");
    source.append(PART_34);
    add_method(source, "close_delay", "delay");
}

fn add_5(source: &mut String)
    requires
        old(source)@ == text_4(),
    ensures
        final(source)@ == text_5(),
{
    reveal(text_5);
    source.append(PART_35);
    add_method(source, "size_range", "function");
    source.append(PART_36);
    source.append(PART_37);
    source.append(PART_38);
    add_method(source, "map", "function");
    source.append(PART_39);
    add_method(source, "when", "function");
    source.append(PART_40);
    source.append(PART_41);
    source.append(PART_42);
    source.append(PART_43);
    add_method(source, "select_tab", "function");
    source.append(PART_44);
    add_method(source, "close_panel", "function");
    source.append(PART_45);
    add_method(source, "toggle_zoom", "function");
    source.append(PART_46);
    add_method(source, "drag_tab", "function");
    source.append(PART_47);
    add_method(source, "drop_tab", "function");
}

fn add_6(source: &mut String)
    requires
        old(source)@ == text_5(),
    ensures
        final(source)@ == text_6(),
{
    reveal(text_6);
    source.append(PART_48);
    add_method(source, "toggle_dock", "function");
    source.append(PART_49);
    add_method(source, "resize_dock", "function");
    source.append(PART_50);
    add_method(source, "move_tile", "function");
    source.append(PART_51);
    add_method(source, "resize_tile", "function");
    source.append(PART_52);
    add_method(source, "raise_tile", "function");
    source.append(PART_53);
    add_method(source, "toggle_tile_zoom", "function");
    source.append(PART_54);
    add_method(source, "close_tile", "function");
    source.append(PART_55);
    source.append(PART_56);
    source.append(PART_57);
    source.append(PART_58);
    source.append(PART_59);
    source.append(PART_60);
    source.append(PART_61);
    source.append(PART_62);
    source.append(PART_63);
    source.append(PART_64);
    source.append(PART_65);
}

/// The prelude.
pub fn prelude_source() -> (r: String)
    ensures
        r@ == prelude_text(),
{
    let mut source = String::new();
    source.append(PART_1);
    source.append("\n  ");
    source.append(DISPATCH);
    reveal(text_0);
    assert(source@ =~= text_0());
    add_1(&mut source);
    add_2(&mut source);
    add_3(&mut source);
    add_4(&mut source);
    add_5(&mut source);
    add_6(&mut source);
    source.append("\n");
    source
}

proof fn lemma_part_1()
    ensures
        prelude::binds_nothing(PART_1@),
{
    reveal_strlit(r##"
globalThis.__gpui = (() => {
  const methods = {};

  const diagnostic = new Proxy(methods, {
    get(target, name, receiver) {
      const found = Reflect.get(target, name, receiver);
      if (found !== undefined) return found;
      if (typeof name !== "string" || name.startsWith("__")) return undefined;
      return () => __unknown(name);
    },
  });

  globalThis.__diagnostics = false;

  const element = (id) => {
    const object = Object.create(globalThis.__diagnostics ? diagnostic : methods);
    object.__id = id;
    return object;
  };

  const define = (name) => {
    methods[name] = function (...args) {
      __apply(this.__id, name, args);
      return this;
    };
  };

  const defineNullaryStyle = (name, index) => {
    methods[name] = function () {
      __applyNullaryStyle(this.__id, index);
      return this;
    };
  };
  const defineParamStyle = (name, index) => {
    methods[name] = function (value) {
      __applyParamStyle(this.__id, index, value);
      return this;
    };
  };

  for (let i = 0; i < __nullaryStyles.length; i += 1) {
    defineNullaryStyle(__nullaryStyles[i], __nullaryStyleIndexes[i]);
  }
  for (let i = 0; i < __paramStyles.length; i += 1) {
    defineParamStyle(__paramStyles[i], i);
  }"##);
}

proof fn lemma_part_2()
    ensures
        prelude::ends_before_line(PART_2@),
{
    reveal_strlit(r##"

  const childId = (child) => {
    const id = child?.__id;
    if (id !== undefined) return id;
    const kind = typeof child;
    if (kind === "string" || kind === "number" || kind === "boolean") {
      return __text(String(child));
    }
    if (child?.__slot !== undefined) return __text_slot(child.__slot);
    if (child?.__entity) return __child_view(child.__handle);
    throw new TypeError(
      "child(value) expects an element, a string, or an entity from cx.new(Class, props)",
    );
  };"##);
}

proof fn lemma_part_3()
    ensures
        prelude::ends_before_line(PART_3@),
{
    reveal_strlit(r##" (child) {
    __attach(this.__id, childId(child));
    return this;
  };"##);
}

proof fn lemma_part_4()
    ensures
        prelude::ends_before_line(PART_4@),
{
    reveal_strlit(r##" (list) {
    for (const child of list) __attach(this.__id, childId(child));
    return this;
  };
  const slot = (name) =>
    function (element) {
      __apply(this.__id, name, [element.__id]);
      return this;
    };
"##);
}

proof fn lemma_part_5()
    ensures
        prelude::ends_before_line(PART_5@),
{
    reveal_strlit(r##"("content");"##);
}

proof fn lemma_part_6()
    ensures
        prelude::ends_before_line(PART_6@),
{
    reveal_strlit(r##"("trigger");
"##);
}

proof fn lemma_part_7()
    ensures
        prelude::ends_before_line(PART_7@),
{
    reveal_strlit(r##"("input");"##);
}

proof fn lemma_part_8()
    ensures
        prelude::ends_before_line(PART_8@),
{
    reveal_strlit(r##"("decrement_button");"##);
}

proof fn lemma_part_9()
    ensures
        prelude::ends_before_line(PART_9@),
{
    reveal_strlit(r##"("increment_button");
"##);
}

proof fn lemma_part_10()
    ensures
        prelude::ends_before_line(PART_10@),
{
    reveal_strlit(r##"("image");"##);
}

proof fn lemma_part_11()
    ensures
        prelude::ends_before_line(PART_11@),
{
    reveal_strlit(r##"("fallback");
"##);
}

proof fn lemma_part_12()
    ensures
        prelude::ends_before_line(PART_12@),
{
    reveal_strlit(r##"("header");"##);
}

proof fn lemma_part_13()
    ensures
        prelude::ends_before_line(PART_13@),
{
    reveal_strlit(r##"("footer");"##);
}

proof fn lemma_part_14()
    ensures
        prelude::ends_before_line(PART_14@),
{
    reveal_strlit(r##"("panel");
"##);
}

proof fn lemma_part_15()
    ensures
        prelude::ends_before_line(PART_15@),
{
    reveal_strlit(r##" (handle) {
    if (typeof handle?.__handle !== "number") {
      throw new TypeError(
        "track_focus(handle) expects a FocusHandle from cx.focus_handle(), not a name or an element",
      );
    }
    __apply(this.__id, "track_focus", [handle.__handle]);
    return this;
  };"##);
}

proof fn lemma_part_16()
    ensures
        prelude::ends_before_line(PART_16@),
{
    reveal_strlit(r##" (handle) {
    if (typeof handle?.__handle !== "number") {
      throw new TypeError(
        "track_scroll(handle) expects a VirtualListScrollHandle from VirtualListScrollHandle.new()",
      );
    }
    __apply(this.__id, "track_scroll", [handle.__handle]);
    return this;
  };"##);
}

proof fn lemma_part_17()
    ensures
        prelude::ends_before_line(PART_17@),
{
    reveal_strlit(r##" (handle) {
    if (typeof handle?.__handle !== "number") {
      throw new TypeError(
        "content_focus_handle(handle) expects a FocusHandle from cx.focus_handle(), not a name or an element",
      );
    }
    __apply(this.__id, "content_focus_handle", [handle.__handle]);
    return this;
  };
  const state = (name) =>
    function (declare) {
      const target = element(__state(this.__id, name));
      declare(target);
      return this;
    };
"##);
}

proof fn lemma_part_18()
    ensures
        prelude::ends_before_line(PART_18@),
{
    reveal_strlit(r##"("hover");"##);
}

proof fn lemma_part_19()
    ensures
        prelude::ends_before_line(PART_19@),
{
    reveal_strlit(r##"("active");"##);
}

proof fn lemma_part_20()
    ensures
        prelude::ends_before_line(PART_20@),
{
    reveal_strlit(r##"("focus");"##);
}

proof fn lemma_part_21()
    ensures
        prelude::ends_before_line(PART_21@),
{
    reveal_strlit(r##"("range_style");"##);
}

proof fn lemma_part_22()
    ensures
        prelude::ends_before_line(PART_22@),
{
    reveal_strlit(r##"("cell_style");"##);
}

proof fn lemma_part_23()
    ensures
        prelude::ends_before_line(PART_23@),
{
    reveal_strlit(r##"("cell_active_style");"##);
}

proof fn lemma_part_24()
    ensures
        prelude::binds_nothing(PART_24@),
{
    reveal_strlit(r##"("caret_style");

  const checkListArgs = (shape, item_count, get_key, render, renderHint) => {
    if (!Number.isInteger(item_count) || item_count < 0) {
      throw new TypeError(shape + " needs a whole, non-negative item_count");
    }
    if (typeof get_key !== "function") {
      throw new TypeError(
        shape + " needs get_key(index) to return each item's stable string key",
      );
    }
    if (typeof render !== "function") {
      throw new TypeError(shape + " needs a render function; it is called " + renderHint);
    }
  };

  const RANGE_HINT = "once per visible range, not once per item";

  const virtualList = (build, name) => (id, item_count, item_sizes, get_key, render) => {
    const shape = name + "(id, item_count, item_sizes, get_key, render)";
    checkListArgs(shape, item_count, get_key, render, RANGE_HINT);
    if (Array.isArray(item_sizes) && item_sizes.length !== item_count) {
      throw new TypeError(
        shape + " was given " + item_sizes.length + " item sizes for " + item_count +
          " items; pass one number for a uniform extent, or one per item",
      );
    }
    return element(build(String(id), item_count, item_sizes, get_key, render));
  };

  const lazyList = (build, name, perItem) => (id, item_count, get_key, render) => {
    const shape = name + "(id, item_count, get_key, render)";
    checkListArgs(
      shape,
      item_count,
      get_key,
      render,
      perItem ? "once per item on screen, with the item's index" : RANGE_HINT,
    );
    const describe = perItem
      ? (range, cx) => {
          const items = [];
          for (let index = range.start; index < range.end; index++) {
            items.push(render(index, cx));
          }
          return items;
        }
      : render;
    return element(build(String(id), item_count, get_key, describe));
  };

  const finiteNonNegative = (value, name) => {
    if (typeof value !== "number" || !Number.isFinite(value) || value < 0) {
      throw new TypeError(name + " must be a finite non-negative number");
    }
    return value;
  };

  const finitePositive = (value, name) => {
    if (typeof value !== "number" || !Number.isFinite(value) || value <= 0) {
      throw new TypeError(name + " must be a finite positive number");
    }
    return value;
  };"##);
}

proof fn lemma_part_25()
    ensures
        prelude::ends_before_line(PART_25@),
{
    reveal_strlit(r##"

  const oneBased = (value, name) => {
    if (!Number.isInteger(value) || value < 1) {
      throw new TypeError(name + " must be a whole number of at least 1");
    }
    return value;
  };
"##);
}

proof fn lemma_part_26()
    ensures
        prelude::ends_before_line(PART_26@),
{
    reveal_strlit(r##" (property, options) {
    property = String(property);
    if (!["opacity", "width", "height", "left", "top"].includes(property)) {
      throw new TypeError(
        "transition(property, policy) supports opacity, width, height, left or top; got " +
          JSON.stringify(property),
      );
    }
    const policy = typeof options === "number" ? { duration: options } : (options ?? {});
    const duration = finiteDuration(policy.duration ?? 0, "transition duration");
    const delay = finiteDuration(policy.delay ?? 0, "transition delay");
    const easing = policy.easing ?? "ease-out";
    if (!["linear", "ease-in", "ease-out", "ease-in-out"].includes(easing)) {
      throw new TypeError(
        "transition easing must be linear, ease-in, ease-out or ease-in-out; got " +
          JSON.stringify(easing),
      );
    }
    __apply(this.__id, "transition", [
      property,
      duration,
      delay,
      easing,
    ]);
    return this;
  };
"##);
}

proof fn lemma_part_27()
    ensures
        prelude::ends_before_line(PART_27@),
{
    reveal_strlit(r##" (property, options) {
    property = String(property);
    if (!["opacity", "width", "height", "left", "top"].includes(property)) {
      throw new TypeError(
        "spring(property, policy) supports opacity, width, height, left or top; got " +
          JSON.stringify(property),
      );
    }
    const policy = options ?? {};
    const response = finiteDuration(policy.response ?? 250, "spring response");
    const damping = finiteNonNegative(policy.damping ?? 1, "spring damping");
    const epsilon = finitePositive(policy.epsilon ?? 0.001, "spring epsilon");
    __apply(this.__id, "spring", [
      property,
      response,
      damping,
      epsilon,
    ]);
    return this;
  };
"##);
}

proof fn lemma_part_28()
    ensures
        prelude::ends_before_line(PART_28@),
{
    reveal_strlit(r##" (value) {
    value = String(value);
    if (!["horizontal", "vertical"].includes(value)) {
      throw new TypeError(
        "axis(value) must be horizontal or vertical; got " + JSON.stringify(value),
      );
    }
    __apply(this.__id, "axis", [value]);
    return this;
  };
"##);
}

proof fn lemma_part_29()
    ensures
        prelude::ends_before_line(PART_29@),
{
    reveal_strlit(r##" (value) {
    value = String(value);
    if (!["scrolling", "hover", "always"].includes(value)) {
      throw new TypeError(
        "mode(value) must be scrolling, hover or always; got " + JSON.stringify(value),
      );
    }
    __apply(this.__id, "mode", [value]);
    return this;
  };
"##);
}

proof fn lemma_part_30()
    ensures
        prelude::ends_before_line(PART_30@),
{
    reveal_strlit(r##" (width, height) {
    __apply(this.__id, "scroll_size", [
      finiteNonNegative(width, "scroll_size width"),
      finiteNonNegative(height, "scroll_size height"),
    ]);
    return this;
  };
"##);
}

proof fn lemma_part_31()
    ensures
        prelude::ends_before_line(PART_31@),
{
    reveal_strlit(r##" (value) {
    value = String(value);
    if (!__anchorNames.includes(value)) {
      throw new TypeError(
        "anchor(value) must be one of " +
          __anchorNames.join(", ") +
          "; got " +
          JSON.stringify(value),
      );
    }
    __apply(this.__id, "anchor", [value]);
    return this;
  };
"##);
}

proof fn lemma_part_32()
    ensures
        prelude::ends_before_line(PART_32@),
{
    reveal_strlit(r##" (milliseconds) {
    __apply(this.__id, "frame_budget", [
      finitePositive(milliseconds, "frame_budget"),
    ]);
    return this;
  };
"##);
}

proof fn lemma_part_33()
    ensures
        prelude::ends_before_line(PART_33@),
{
    reveal_strlit(r##" (value) {
    value = String(value);
    if (!["left", "right", "middle"].includes(value)) {
      throw new TypeError(
        "mouse_button(value) must be left, right or middle; got " + JSON.stringify(value),
      );
    }
    __apply(this.__id, "mouse_button", [value]);
    return this;
  };

  const finiteDuration = (value, name) => {
    value = finiteNonNegative(value, name);
    if (value > 86400000) throw new RangeError(name + " must not exceed 86400000 milliseconds");
    return value;
  };
  const delay = (name) =>
    function (ms) {
      __apply(this.__id, name, [finiteDuration(ms, name)]);
      return this;
    };
"##);
}

proof fn lemma_part_34()
    ensures
        prelude::ends_before_line(PART_34@),
{
    reveal_strlit(r##"("open_delay");"##);
}

proof fn lemma_part_35()
    ensures
        prelude::ends_before_line(PART_35@),
{
    reveal_strlit(r##"("close_delay");
"##);
}

proof fn lemma_part_36()
    ensures
        prelude::binds_nothing(PART_36@),
{
    reveal_strlit(r##" (min, max) {
    const args = [finiteNonNegative(min, "size_range min")];
    if (max !== undefined && max !== null) {
      args.push(finiteNonNegative(max, "size_range max"));
    }
    __apply(this.__id, "size_range", args);
    return this;
  };

  const resizablePanel = () => {
    const object = element(__resizable_panel());
    object.size = function (pixels) {
      __apply(this.__id, "panel_size", [finiteNonNegative(pixels, "resizable_panel size")]);
      return this;
    };
    object.visible = function (value) {
      __apply(this.__id, "panel_visible", [Boolean(value)]);
      return this;
    };
    return object;
  };

  const coordinate = (value, name) => {
    if (typeof value === "number" && Number.isFinite(value)) return value;
    if (typeof value === "string" && /^-?(?:\d+(?:\.\d*)?|\.\d+)%$/.test(value)) return value;
    throw new TypeError(name + " must be a finite pixel number or percentage string");
  };

  const background = (kind, values, opacityFactor = 1, colorSpace = "srgb") => Object.freeze({
    __background: true,
    kind,
    values: Object.freeze(values),
    opacityFactor,
    colorSpace,
    opacity(factor) {
      return background(kind, values, finiteNonNegative(factor, "background opacity"), colorSpace);
    },
    color_space(space) {
      space = String(space).toLowerCase();
      if (!['srgb', 'oklab'].includes(space)) throw new TypeError("background color_space must be srgb or oklab");
      return background(kind, values, opacityFactor, space);
    },
  });

  const asBackground = (value) => value?.__background
    ? value
    : background("solid", [String(value)]);"##);
}

proof fn lemma_part_37()
    ensures
        prelude::binds_nothing(PART_37@),
{
    reveal_strlit(r##"

  const pathBuilder = (fill, width) => {
    const commands = [];
    const builder = {};
    const command = (name, arity, coordinateCount = arity) => (...args) => {
      if (args.length < arity) throw new TypeError(name + " expects at least " + arity + " argument(s)");
      for (let index = 0; index < coordinateCount; index++) coordinate(args[index], name + " coordinate");
      commands.push(Object.freeze([name, ...args]));
      return builder;
    };
    builder.move_to = command("move_to", 2);
    builder.line_to = command("line_to", 2);
    builder.curve_to = command("curve_to", 4);
    builder.cubic_bezier_to = command("cubic_bezier_to", 6);
    builder.arc_to = (...args) => {
      if (args.length < 7) throw new TypeError("arc_to expects at least 7 argument(s)");
      coordinate(args[0], "arc x radius");
      coordinate(args[1], "arc y radius");
      if (typeof args[2] !== "number" || !Number.isFinite(args[2])) throw new TypeError("arc rotation must be finite");
      coordinate(args[5], "arc destination x");
      coordinate(args[6], "arc destination y");
      commands.push(Object.freeze(["arc_to", ...args]));
      return builder;
    };
    builder.close = () => { commands.push(Object.freeze(["close"])); return builder; };
    builder.dash_array = (values) => {
      if (fill) throw new TypeError("dash_array is only available on stroke paths");
      if (!Array.isArray(values) || values.some((value) => typeof value !== "number" || !Number.isFinite(value) || Math.fround(value) <= 0)) {
        throw new TypeError("dash_array(values) expects positive finite pixel numbers");
      }
      commands.push(Object.freeze(["dash_array", ...values]));
      return builder;
    };
    builder.add_polygon = (points, closed = true) => {
      if (!Array.isArray(points) || points.length === 0) throw new TypeError("add_polygon(points) expects a non-empty array");
      points.forEach((point, index) => {
        if (!Array.isArray(point) || point.length < 2) throw new TypeError("each polygon point must be [x, y]");
        command(index === 0 ? "move_to" : "line_to", 2)(point[0], point[1]);
      });
      if (closed) builder.close();
      return builder;
    };
    builder.build = () => Object.freeze({
      __path: true,
      fill,
      width,
      commands: Object.freeze(commands.slice()),
    });
    return builder;
  };"##);
}

proof fn lemma_part_38()
    ensures
        prelude::ends_before_line(PART_38@),
{
    reveal_strlit(r##"

  const paintPath = (pathValue, paintValue) => {
    if (!pathValue?.__path) throw new TypeError("window.paint_path(path, background) expects a Path built by PathBuilder");
    const paint = asBackground(paintValue);
    const object = element(__path(
      pathValue.fill,
      paint.kind,
      paint.values.map(String),
      paint.opacityFactor,
      paint.colorSpace,
      pathValue.width,
    ));
    for (const [name, ...args] of pathValue.commands) __apply(object.__id, name, args);
    return object;
  };
"##);
}

proof fn lemma_part_39()
    ensures
        prelude::ends_before_line(PART_39@),
{
    reveal_strlit(r##" (transform) {
    return transform(this);
  };
"##);
}

proof fn lemma_part_40()
    ensures
        prelude::binds_nothing(PART_40@),
{
    reveal_strlit(r##" (condition, branch) {
    if (!condition) return this;
    const produced = branch(this);
    if (produced === undefined || produced === null) {
      throw new Error("when(...) must return the element");
    }
    return produced;
  };

  const inputState = (handle) => ({
    __handle: handle,
    value: () => __input_value(handle),
    set_value: (next) => __input_set_value(handle, String(next ?? "")),
    on: (event, handler) => __input_on(handle, String(event), handler),
    set_step: (step) => __input_set_step(handle, step === null || step === undefined ? null : Number(step)),
    set_min: (min) => __input_set_min(handle, min === null || min === undefined ? null : Number(min)),
    set_max: (max) => __input_set_max(handle, max === null || max === undefined ? null : Number(max)),
    set_masked: (masked) => __input_set_masked(handle, Boolean(masked)),
    set_loading: (loading) => __input_set_loading(handle, Boolean(loading)),
    release: () => __input_release(handle),
  });

  const textareaState = (handle) => ({
    __handle: handle,
    value: () => __textarea_value(handle),
    set_value: (next) => __textarea_set_value(handle, String(next ?? "")),
    on: (event, handler) => __textarea_on(handle, String(event), handler),
    set_rows: (rows) => __textarea_set_rows(handle, oneBased(rows, "set_rows(rows)")),
    set_auto_grow: (min_rows, max_rows) =>
      __textarea_set_auto_grow(
        handle,
        oneBased(min_rows, "set_auto_grow(min_rows, max_rows) min_rows"),
        oneBased(max_rows, "set_auto_grow(min_rows, max_rows) max_rows"),
      ),
    set_soft_wrap: (wrap) => __textarea_set_soft_wrap(handle, Boolean(wrap)),
    release: () => __textarea_release(handle),
  });

  const sliderValue = (values) => (values.length === 1 ? values[0] : values);
  const sliderValues = (value, api) => {
    const finite = (each) => typeof each === "number" && Number.isFinite(each);
    if (Array.isArray(value)) {
      if (value.length !== 2 || !value.every(finite)) {
        throw new TypeError(api + " expects a finite number, or a pair [start, end] of them");
      }
      return [value[0], value[1]];
    }
    if (!finite(value)) {
      throw new TypeError(api + " expects a finite number, or a pair [start, end] of them");
    }
    return [value];
  };"##);
}

proof fn lemma_part_41()
    ensures
        prelude::binds_nothing(PART_41@),
{
    reveal_strlit(r##"

  const sliderState = (handle) => ({
    __handle: handle,
    value: () => sliderValue(__slider_value(handle)),
    set_value: (next) => __slider_set_value(handle, sliderValues(next, "set_value(value)")),
    min_value: () => __slider_bounds(handle)[0],
    max_value: () => __slider_bounds(handle)[1],
    step_value: () => __slider_bounds(handle)[2],
    on: (event, handler) => __slider_on(handle, String(event), handler),
    release: () => __slider_release(handle),
  });

  const otpState = (handle) => ({
    __handle: handle,
    value: () => __otp_value(handle),
    set_value: (next) => __otp_set_value(handle, String(next ?? "")),
    len: () => __otp_len(handle),
    is_masked: () => __otp_is_masked(handle),
    set_masked: (masked) => __otp_set_masked(handle, Boolean(masked)),
    focus: () => __otp_focus(handle),
    on: (event, handler) => __otp_on(handle, String(event), handler),
    release: () => __otp_release(handle),
  });

  const calendarDate = (parts) => {
    if (parts.length === 2) return [parts[0] ?? null, parts[1] ?? null];
    return parts[0] ?? null;
  };
  const calendarParts = (value, api) => {
    if (value === null || value === undefined) return [null];
    if (Array.isArray(value)) {
      if (value.length !== 2) {
        throw new TypeError(`${api} range expects a two-element array [start, end]`);
      }
      return [value[0] ?? null, value[1] ?? null];
    }
    if (typeof value !== "string") {
      throw new TypeError(`${api} expects null, a "YYYY-MM-DD" string, or a pair of those`);
    }
    return [value];
  };
  const calendarState = (handle) => ({
    __handle: handle,
    month_days: () => __calendar_month_days(handle),
    year: () => __calendar_year(handle),
    month: () => __calendar_month(handle),
    today: () => __calendar_today(handle),
    value: () => calendarDate(__calendar_value(handle)),
    set_value: (next) => __calendar_set_value(handle, calendarParts(next, "set_value(value)")),
    next_month: () => __calendar_next_month(handle),
    prev_month: () => __calendar_prev_month(handle),
    on: (event, handler) =>
      __calendar_on(handle, String(event), (parts, cx) => handler(calendarDate(parts), cx)),
    release: () => __calendar_release(handle),
  });"##);
}

proof fn lemma_part_42()
    ensures
        prelude::binds_nothing(PART_42@),
{
    reveal_strlit(r##"

  const focusHandle = (handle) => ({
    __handle: handle,
    focus: () => __focus_focus(handle),
    is_focused: () => __focus_is_focused(handle),
    release: () => __focus_release(handle),
  });

  const entity = (handle) => ({
    __entity: true,
    __handle: handle,
    set_props: (props) => __view_set_props(handle, props),
    release: () => __view_release(handle),
  });

  const dockPlacement = (value, api) => {
    const name = String(value ?? "center");
    if (!["center", "left", "right", "bottom"].includes(name)) {
      throw new TypeError(api + ' expects "center", "left", "right" or "bottom"');
    }
    return name;
  };

  const wholeAt = (value, api) => {
    if (!Number.isSafeInteger(value) || value < 0) {
      throw new TypeError(api + " expects a whole, non-negative position");
    }
    return value;
  };

  const finiteDockNumber = (value, api) => {
    if (typeof value !== "number" || !Number.isFinite(value)) {
      throw new TypeError(api + " expects a finite number");
    }
    return value;
  };

  const nonNegativeDockNumber = (value, api) => {
    const number = finiteDockNumber(value, api);
    if (number < 0) throw new RangeError(api + " expects a non-negative number");
    return number;
  };

  const dockBounds = (value) => {
    const api = "add_panel(view, options) bounds";
    if (value === undefined || value === null) return null;
    if (typeof value !== "object") throw new TypeError(api + " expects an object");
    return {
      x: finiteDockNumber(value.x, api + ".x"),
      y: finiteDockNumber(value.y, api + ".y"),
      width: nonNegativeDockNumber(value.width, api + ".width"),
      height: nonNegativeDockNumber(value.height, api + ".height"),
    };
  };

  const dockTarget = (value, api) => {
    const handle = value?.__dock;
    if (typeof handle !== "number") {
      throw new TypeError(
        api + " expects the group, dock or tile your chrome handler was given as its first argument",
      );
    }
    return handle;
  };

  const groupNode = (group, api) => {
    if (typeof group?.node !== "number") {
      throw new TypeError(api + " expects a tab group, which is what tab_bar and empty_group are given");
    }
    return group.node;
  };"##);
}

proof fn lemma_part_43()
    ensures
        prelude::ends_before_line(PART_43@),
{
    reveal_strlit(r##"

  const tilePanel = (tile, api) => {
    if (typeof tile?.panel?.id !== "number") {
      throw new TypeError(api + " expects a tile, which is what tile_drag_bar and tile_resize_handles are given");
    }
    return tile.panel.id;
  };
"##);
}

proof fn lemma_part_44()
    ensures
        prelude::ends_before_line(PART_44@),
{
    reveal_strlit(r##" (group, index) {
    const api = "select_tab(group, index)";
    __apply(this.__id, "select_tab", [dockTarget(group, api), groupNode(group, api), wholeAt(index, api)]);
    return this;
  };"##);
}

proof fn lemma_part_45()
    ensures
        prelude::ends_before_line(PART_45@),
{
    reveal_strlit(r##" (group, panel) {
    const api = "close_panel(group, panel_id)";
    __apply(this.__id, "close_panel", [dockTarget(group, api), groupNode(group, api), Number(panel)]);
    return this;
  };"##);
}

proof fn lemma_part_46()
    ensures
        prelude::ends_before_line(PART_46@),
{
    reveal_strlit(r##" (group) {
    const api = "toggle_zoom(group)";
    __apply(this.__id, "toggle_zoom", [dockTarget(group, api), groupNode(group, api)]);
    return this;
  };"##);
}

proof fn lemma_part_47()
    ensures
        prelude::ends_before_line(PART_47@),
{
    reveal_strlit(r##" (group, index) {
    const api = "drag_tab(group, index)";
    __apply(this.__id, "drag_tab", [dockTarget(group, api), groupNode(group, api), wholeAt(index, api)]);
    return this;
  };"##);
}

proof fn lemma_part_48()
    ensures
        prelude::ends_before_line(PART_48@),
{
    reveal_strlit(r##" (group, index) {
    const api = "drop_tab(group, index)";
    const at = index === undefined || index === null ? null : wholeAt(index, api);
    __apply(this.__id, "drop_tab", [dockTarget(group, api), groupNode(group, api), at]);
    return this;
  };"##);
}

proof fn lemma_part_49()
    ensures
        prelude::ends_before_line(PART_49@),
{
    reveal_strlit(r##" (dock) {
    const api = "toggle_dock(dock)";
    __apply(this.__id, "toggle_dock", [dockTarget(dock, api), dockPlacement(dock?.placement, api)]);
    return this;
  };"##);
}

proof fn lemma_part_50()
    ensures
        prelude::ends_before_line(PART_50@),
{
    reveal_strlit(r##" (dock) {
    const api = "resize_dock(dock)";
    __apply(this.__id, "resize_dock", [dockTarget(dock, api), dockPlacement(dock?.placement, api)]);
    return this;
  };"##);
}

proof fn lemma_part_51()
    ensures
        prelude::ends_before_line(PART_51@),
{
    reveal_strlit(r##" (tile) {
    const api = "move_tile(tile)";
    __apply(this.__id, "move_tile", [dockTarget(tile, api), tilePanel(tile, api)]);
    return this;
  };"##);
}

proof fn lemma_part_52()
    ensures
        prelude::ends_before_line(PART_52@),
{
    reveal_strlit(r##" (tile, side) {
    const api = "resize_tile(tile, side)";
    const name = String(side ?? "");
    if (!["left", "right", "top", "bottom", "bottom_right"].includes(name)) {
      throw new TypeError(api + ' expects "left", "right", "top", "bottom" or "bottom_right"');
    }
    __apply(this.__id, "resize_tile", [dockTarget(tile, api), tilePanel(tile, api), name]);
    return this;
  };"##);
}

proof fn lemma_part_53()
    ensures
        prelude::ends_before_line(PART_53@),
{
    reveal_strlit(r##" (tile) {
    const api = "raise_tile(tile)";
    __apply(this.__id, "raise_tile", [dockTarget(tile, api), tilePanel(tile, api)]);
    return this;
  };"##);
}

proof fn lemma_part_54()
    ensures
        prelude::ends_before_line(PART_54@),
{
    reveal_strlit(r##" (tile) {
    const api = "toggle_tile_zoom(tile)";
    __apply(this.__id, "toggle_tile_zoom", [dockTarget(tile, api), tilePanel(tile, api)]);
    return this;
  };"##);
}

proof fn lemma_part_55()
    ensures
        prelude::binds_nothing(PART_55@),
{
    reveal_strlit(r##" (tile) {
    const api = "close_tile(tile)";
    __apply(this.__id, "close_tile", [dockTarget(tile, api), tilePanel(tile, api)]);
    return this;
  };

  const DOCK_CHROME = [
    "tab_bar",
    "empty_group",
    "drop_indicator",
    "dock",
    "tile_drag_bar",
    "tile_resize_handles",
  ];

  const dockAreaElement = (area) => {
    const handle = area?.__dock;
    if (typeof handle !== "number") {
      throw new TypeError("dock_area(area) expects a DockArea from DockArea.new(id)");
    }
    const object = element(__dock_area_element(handle));
    for (const hook of DOCK_CHROME) {
      object[hook] = function (handler) {
        if (typeof handler !== "function") {
          throw new TypeError(hook + "(handler) expects a function returning an element");
        }
        __apply(this.__id, hook, [
          (payload, cx) => {
            payload.__dock = handle;
            return handler(payload, cx);
          },
        ]);
        return this;
      };
    }
    return object;
  };

  const dockArea = (handle) => ({
    __dock: handle,
    __handle: handle,
    add_panel: (view, options) => {
      if (typeof view?.__handle !== "number" || !view.__entity) {
        throw new TypeError(
          "add_panel(view, options) expects a view from cx.new(Class): a panel's body is a view, not an element",
        );
      }
      const settings = options ?? {};
      if (typeof settings.name !== "string" || settings.name.length === 0) {
        throw new TypeError(
          "add_panel(view, options) needs a name: it is what the panel is filed under in a saved layout, and what register_panel finds it again by",
        );
      }
      __dock_add_panel(handle, view.__handle, {
        name: settings.name,
        placement: dockPlacement(settings.placement, "add_panel placement"),
        size:
          settings.size === undefined || settings.size === null
            ? null
            : nonNegativeDockNumber(settings.size, "add_panel(view, options) size"),
        bounds: dockBounds(settings.bounds),
        closable: settings.closable === undefined ? true : Boolean(settings.closable),
        zoomable: settings.zoomable === undefined ? true : Boolean(settings.zoomable),
        visible: settings.visible === undefined ? true : Boolean(settings.visible),
      });
    },
    remove_panel: (id) => __dock_remove_panel(handle, wholeAt(id, "remove_panel(id)")),"##);
}

proof fn lemma_part_56()
    ensures
        prelude::binds_nothing(PART_56@),
{
    reveal_strlit(r##"
    panels: () => JSON.parse(__dock_panels(handle)),
    dump: () => JSON.parse(__dock_dump(handle)),
    load: (state) => __dock_load(handle, state),
    has_dock: (placement) => __dock_has(handle, dockPlacement(placement, "has_dock(placement)")),
    is_dock_open: (placement) =>
      __dock_is_open(handle, dockPlacement(placement, "is_dock_open(placement)")),
    toggle_dock: (placement) =>
      __dock_toggle(handle, dockPlacement(placement, "toggle_dock(placement)")),
    remove_dock: (placement) =>
      __dock_remove(handle, dockPlacement(placement, "remove_dock(placement)")),
    dock_size: (placement) => __dock_size(handle, dockPlacement(placement, "dock_size(placement)")),
    set_dock_size: (placement, size) =>
      __dock_set_size(
        handle,
        dockPlacement(placement, "set_dock_size(placement, size)"),
        nonNegativeDockNumber(size, "set_dock_size(placement, size)"),
      ),
    set_dock_collapsible: (placement, collapsible) =>
      __dock_set_collapsible(
        handle,
        dockPlacement(placement, "set_dock_collapsible(placement, collapsible)"),
        Boolean(collapsible),
      ),
    is_locked: () => __dock_is_locked(handle),
    set_locked: (locked) => __dock_set_locked(handle, Boolean(locked)),
    is_zoomed: () => __dock_is_zoomed(handle),
    zoom_out: () => __dock_zoom_out(handle),
    on: (event, handler) => __dock_on(handle, String(event), handler),
    release: () => __dock_release(handle),
  });

  const virtualScrollHandle = (handle) => ({
    __handle: handle,
    scroll_to_item: (index, strategy) => {
      if (!Number.isInteger(index) || index < 0) {
        throw new TypeError("scroll_to_item(index) needs a whole, non-negative index");
      }
      __virtual_scroll_to_item(handle, index, String(strategy ?? "top"));
    },
    scroll_to_bottom: () => __virtual_scroll_to_bottom(handle),
    release: () => __virtual_scroll_release(handle),
  });"##);
}

proof fn lemma_part_57()
    ensures
        prelude::binds_nothing(PART_57@),
{
    reveal_strlit(r##"

  let deferInit = false;
  globalThis.__construct = (Class) => {
    deferInit = true;
    try {
      return new Class();
    } finally {
      deferInit = false;
    }
  };
  globalThis.__initialize = (instance, props) => {
    if (typeof instance.init === "function") instance.init(props, __async_cx());
  };
  globalThis.__checkpoint_view = (instance) => {
    const snapshots = [];
    const seen = new Set();
    const pending = [instance];
    let propertyCount = 0;
    while (pending.length > 0) {
      const value = pending.pop();
      if (
        value === null ||
        (typeof value !== "object" && typeof value !== "function") ||
        seen.has(value)
      ) continue;
      if (snapshots.length >= 10_000) {
        throw new RangeError("a nested view update reached the 10,000-object rollback limit");
      }
      seen.add(value);
      const descriptors = Object.getOwnPropertyDescriptors(value);
      const keys = Reflect.ownKeys(descriptors);
      propertyCount += keys.length;
      if (propertyCount > 100_000) {
        throw new RangeError("a nested view update reached the 100,000-property rollback limit");
      }
      snapshots.push([value, descriptors]);
      for (const key of keys) {
        const descriptor = descriptors[key];
        if (Object.prototype.hasOwnProperty.call(descriptor, "value")) {
          pending.push(descriptor.value);
        }
      }
    }
    return () => {
      for (let index = snapshots.length - 1; index >= 0; index -= 1) {
        const [value, descriptors] = snapshots[index];
        const saved = new Set(Reflect.ownKeys(descriptors));
        for (const key of Reflect.ownKeys(value)) {
          if (!saved.has(key)) {
            const current = Object.getOwnPropertyDescriptor(value, key);
            if (current?.configurable) delete value[key];
          }
        }
        Object.defineProperties(value, descriptors);
      }
    };
  };

  class View {
    constructor(props) {
      if (!deferInit && typeof this.init === "function") this.init(props, __async_cx());
    }
  }

  const contentView = (build, api) => {
    if (typeof build !== "function") {
      throw new TypeError(
        api + " takes a function returning an element, not an element and not a view class",
      );
    }
    return { render: () => build() };
  };"##);
}

proof fn lemma_part_58()
    ensures
        prelude::binds_nothing(PART_58@),
{
    reveal_strlit(r##"

  const storage = (session) => ({
    get length() {
      return __storage_length(session);
    },
    key: (index) => {
      const at = Number(index);
      return Number.isInteger(at) && at >= 0 ? __storage_key(session, at) : null;
    },
    getItem: (key) => __storage_get(session, String(key)),
    setItem: (key, value) => __storage_set(session, String(key), String(value)),
    removeItem: (key) => __storage_remove(session, String(key)),
    clear: () => __storage_clear(session),
    flush: () => __storage_flush(session),
  });

  globalThis.window = {
    open_dialog: (build, options) =>
      __open_dialog(contentView(build, "window.open_dialog"), options ?? undefined),
    close_dialog: () => __close_dialog(),
    close_all_dialogs: () => __close_all_dialogs(),
    has_active_dialog: () => __has_active_dialog(),

    open_sheet: (build) => __open_sheet(undefined, contentView(build, "window.open_sheet")),
    open_sheet_at: (placement, build) =>
      __open_sheet(String(placement), contentView(build, "window.open_sheet_at")),
    close_sheet: () => __close_sheet(),
    has_active_sheet: () => __has_active_sheet(),

    push_toast: (options) => __push_toast(options),
    remove_toast: (id) => __remove_toast(String(id)),
    clear_toasts: () => __clear_toasts(),

    localStorage: storage(false),
    sessionStorage: storage(true),

    paint_path: paintPath,

    rem_size: () => __window_rem_size(),
    line_height: () => __window_line_height(),
    viewport_size: () => __window_viewport_size(),
    bounds: () => __window_bounds(),
    mouse_position: () => __window_mouse_position(),
    appearance: () => __window_appearance(),
    is_window_active: () => __window_is_active(),
    is_fullscreen: () => __window_is_fullscreen(),
    is_maximized: () => __window_is_maximized(),

    dispatch_action: (action) => __dispatch_action(String(action)),

    set_rem_size: (size) => __window_set_rem_size(Number(size)),
    refresh: () => __window_refresh(),
    focus_next: () => __window_focus_next(),
    focus_prev: () => __window_focus_prev(),
    activate_window: () => __window_activate(),
    minimize_window: () => __window_minimize(),
    zoom_window: () => __window_zoom(),
    toggle_fullscreen: () => __window_toggle_fullscreen(),
  };

  globalThis.localStorage = globalThis.window.localStorage;
  globalThis.sessionStorage = globalThis.window.sessionStorage;"##);
}

proof fn lemma_part_59()
    ensures
        prelude::binds_nothing(PART_59@),
{
    reveal_strlit(r##"

  let cachedThemeSource;
  let cachedTheme;
  let cachedThemeRevision = -1;
  globalThis.__theme_dirty = true;
  const refreshTheme = () => {
    const revision = __theme_revision();
    if (!globalThis.__theme_dirty && revision === cachedThemeRevision) return;
    const source = __theme_snapshot();
    if (source !== cachedThemeSource) {
      cachedThemeSource = source;
      cachedTheme = JSON.parse(source);
      Object.freeze(cachedTheme.colors);
      Object.freeze(cachedTheme.spacing);
      Object.freeze(cachedTheme.radius);
      Object.freeze(cachedTheme);
    }
    cachedThemeRevision = revision;
    globalThis.__theme_dirty = false;
  };
  globalThis.__prepare_theme = refreshTheme;
  const currentTheme = () => {
    if (globalThis.__theme_dirty || cachedTheme === undefined) refreshTheme();
    return cachedTheme;
  };

  const contextMembers = (check) => ({
    theme: () => {
      check();
      return currentTheme();
    },
    open_url: (url) => {
      check();
      return __open_url(String(url));
    },
    read_from_clipboard: () => {
      check();
      return __clipboard_read_text();
    },
    write_to_clipboard: (text) => {
      check();
      return __clipboard_write_text(String(text));
    },
    focus_handle: () => {
      check();
      return focusHandle(__focus_handle_new());
    },
    bind_keys: (bindings) => {
      check();
      if (!Array.isArray(bindings)) {
        throw new TypeError(
          "cx.bind_keys(bindings) expects an array of { keystroke, action, context? }",
        );
      }
      return __bind_keys(bindings);
    },
    new: (Class, props) => {
      check();
      if (typeof Class !== "function" || !(Class.prototype instanceof View)) {
        throw new TypeError("cx.new(Class, props) expects a View subclass");
      }
      return entity(__view_new(Class, props));
    },
    spawn: (body, opts) => {
      check();
      return __spawn(body, opts);
    },
    sleep: (ms) => {
      check();
      return __sleep(ms);
    },
    timer: {
      after: (ms, handler, opts) => {
        check();
        return __timer_after(ms, handler, opts);
      },
      every: (ms, handler, opts) => {
        check();
        return __timer_every(ms, handler, opts);
      },
    },
  });"##);
}

proof fn lemma_part_60()
    ensures
        prelude::binds_nothing(PART_60@),
{
    reveal_strlit(r##"

  const templateSlot = (index) => {
    const refuse = () => {
      throw new TypeError(
        "a template argument can be passed to a builder call but not computed on. " +
          "Format or compare the value where the template is called, and pass the result",
      );
    };
    return {
      __slot: index,
      toString: refuse,
      valueOf: refuse,
      [Symbol.toPrimitive]: refuse,
    };
  };

  const template = (build) => {
    if (typeof build !== "function") {
      throw new TypeError("template(build) expects a function that builds one element");
    }
    let id = -1;
    return (...args) => {
      if (id < 0) {
        const slots = [];
        for (let i = 0; i < build.length; i += 1) slots.push(templateSlot(i));
        __template_begin(build.length);
        let root;
        try {
          root = build(...slots);
        } catch (error) {
          __template_abort();
          throw error;
        }
        id = __template_end(root?.__id);
      }
      return element(__template_instantiate(id, args));
    };
  };

  globalThis.__template = template;

  return {
    __element: element,
    View,
    div: () => element(__div()),
    h_flex: () => element(__h_flex()),
    v_flex: () => element(__v_flex()),
    svg: (path) => element(__svg(String(path))),
    image: (path) => element(__image(String(path))),
    PathBuilder: {
      fill: () => pathBuilder(true, 0),
      stroke: (width) => pathBuilder(false, finitePositive(width, "stroke width")),
    },
    Background: {
      solid: (color) => background("solid", [String(color)]),
      stop: (color, percentage) => {
        if (typeof percentage !== "number" || !Number.isFinite(percentage)) throw new TypeError("background stop percentage must be finite");
        return Object.freeze({ __backgroundStop: true, color: String(color), percentage });
      },
      linear_gradient: (angle, from, to) => {
        angle = Number(angle);
        if (!Number.isFinite(angle)) throw new TypeError("linear gradient angle must be finite");
        const stop = (value, fallback, name) => {
          if (typeof value === "string") return [value, fallback];
          if (!value?.__backgroundStop) throw new TypeError(name + " must be a color or Background.stop(color, percentage)");
          return [value.color, value.percentage];
        };
        const a = stop(from, 0, "gradient from stop");"##);
}

proof fn lemma_part_61()
    ensures
        prelude::binds_nothing(PART_61@),
{
    reveal_strlit(r##"
        const b = stop(to, 1, "gradient to stop");
        return background("linear-gradient", [String(angle), a[0], String(a[1]), b[0], String(b[1])]);
      },
      pattern_slash: (color, width, interval) => background("pattern-slash", [
        String(color),
        String(finitePositive(width, "pattern width")),
        String(finitePositive(interval, "pattern interval")),
      ]),
      checkerboard: (color, size) => background("checkerboard", [
        String(color),
        String(finitePositive(size, "checkerboard size")),
      ]),
    },
    component: (module, name) => ({
      new: (id, props) => {
        if (typeof id !== "string" || id.length === 0) {
          throw new TypeError("a component needs a non-empty string id");
        }
        return element(__component(String(module), String(name), id, props ?? {}));
      },
    }),
    __context_members: contextMembers,
    Button: { new: (id) => element(__button(String(id))) },
    Link: { new: (id) => element(__link(String(id))) },
    Checkbox: { new: (id) => element(__checkbox(String(id))) },
    Switch: { new: (id) => element(__switch(String(id))) },
    Tabs: { new: (id) => element(__tabs(String(id))) },
    Tab: { new: (id) => element(__tab(String(id))) },
    Progress: { new: (id) => element(__progress(String(id))) },
    Accordion: { new: (id) => element(__accordion(String(id))) },
    AccordionItem: { new: () => element(__accordion_item()) },
    AccordionHeader: {
      new: (trigger) => {
        if (typeof trigger?.__id !== "number") {
          throw new TypeError(
            "AccordionHeader.new(trigger) expects an AccordionTrigger element: the heading owns the button that opens the item, and base has none of its own",
          );
        }
        return element(__accordion_header()).trigger(trigger);
      },
    },
    AccordionPanel: { new: () => element(__accordion_panel()) },
    AccordionTrigger: { new: (id) => element(__accordion_trigger(String(id))) },
    Pagination: { new: (id) => element(__pagination(String(id))) },
    pagination_items: (current_page, total_pages, visible_pages) =>
      __pagination_items(
        Number(current_page),
        Number(total_pages),
        visible_pages === undefined ? 7 : Number(visible_pages),
      ),
    Avatar: { new: () => element(__avatar()) },
    AvatarImage: { new: (path) => element(__avatar_image(String(path))) },"##);
}

proof fn lemma_part_62()
    ensures
        prelude::binds_nothing(PART_62@),
{
    reveal_strlit(r##"
    AvatarFallback: { new: () => element(__avatar_fallback()) },
    ProgressTrack: { new: () => element(__progress_track()) },
    ProgressIndicator: { new: () => element(__progress_indicator()) },
    fps_monitor: () => element(__fps_monitor()),
    show_fps_monitor: (options) => __show_fps_monitor(options),
    hide_fps_monitor: () => __hide_fps_monitor(),
    fps_monitor_visible: () => __fps_monitor_visible(),
    Radio: { new: (id) => element(__radio(String(id))) },
    Toggle: { new: (id) => element(__toggle(String(id))) },
    RadioGroup: { new: (id) => element(__radio_group(String(id))) },
    ToggleGroup: { new: (id) => element(__toggle_group(String(id))) },
    Table: { new: (id) => element(__table(String(id))) },
    TableHeader: { new: (id) => element(__table_header(String(id))) },
    TableBody: { new: (id) => element(__table_body(String(id))) },
    TableCaption: { new: (id) => element(__table_caption(String(id))) },
    h_resizable: (id) => element(__h_resizable(String(id))),
    v_resizable: (id) => element(__v_resizable(String(id))),
    resizable_panel: resizablePanel,
    TableRow: {
      new: (id, row_index) =>
        element(__table_row(String(id), oneBased(row_index, "TableRow.new row index"))),
    },
    TableHead: {
      new: (id, column_index) =>
        element(__table_head(String(id), oneBased(column_index, "TableHead.new column index"))),
    },
    TableCell: {
      new: (id, column_index) =>
        element(__table_cell(String(id), oneBased(column_index, "TableCell.new column index"))),
    },
    Collapsible: { new: () => element(__collapsible()) },
    Popover: { new: (id) => element(__popover(String(id))) },
    HoverCard: { new: (id) => element(__hover_card(String(id))) },
    Popup: {
      new: (id, trigger) => {
        if (typeof trigger?.__id !== "number") {
          throw new TypeError(
            "Popup.new(id, trigger) expects the trigger element; a popup anchors its content to the trigger's bounds, so it cannot be built without one",
          );
        }
        return element(__popup(String(id))).trigger(trigger);
      },
    },
    Select: { new: (id) => element(__select(String(id))) },
    Combobox: { new: (id) => element(__combobox(String(id))) },
    DatePicker: {
      new: (id, focus_handle) => {
        if (typeof focus_handle?.__handle !== "number") {
          throw new TypeError("##);
}

proof fn lemma_part_63()
    ensures
        prelude::binds_nothing(PART_63@),
{
    reveal_strlit(r##"
            "DatePicker.new(id, focus_handle) expects a FocusHandle from cx.focus_handle(); the picker takes the keyboard through that handle, and base has no builder to supply one later",
          );
        }
        return element(__date_picker(String(id), focus_handle.__handle));
      },
    },
    v_virtual_list: virtualList(__v_virtual_list, "v_virtual_list"),
    h_virtual_list: virtualList(__h_virtual_list, "h_virtual_list"),
    list: lazyList(__list, "list", true),
    uniform_list: lazyList(__uniform_list, "uniform_list", false),
    VirtualListScrollHandle: { new: () => virtualScrollHandle(__virtual_scroll_new()) },
    Scrollbar: {
      new: (id) => element(__scrollbar(String(id))),
      horizontal: (id) => element(__scrollbar(String(id))).axis("horizontal"),
      vertical: (id) => element(__scrollbar(String(id))).axis("vertical"),
    },
    InputState: {
      new: (options) =>
        inputState(__input_state_new(options?.placeholder ?? null, options?.value ?? null)),
    },
    Input: { new: (state) => element(__input_element(state.__handle)) },

    NumberInput: {
      new: (state) => element(__number_input_element(state.__handle)),
    },
    TextareaState: {
      new: (options) =>
        textareaState(
          __textarea_state_new(
            options?.placeholder ?? null,
            options?.value ?? null,
            options?.rows === undefined || options?.rows === null
              ? null
              : oneBased(options.rows, "TextareaState.new rows"),
          ),
        ),
    },
    Textarea: { new: (state) => element(__textarea_element(state.__handle)) },
    TextView: {
      html: (id, text) => element(__text_view(String(id), String(text), "html")),
      markdown: (id, text) => element(__text_view(String(id), String(text), "markdown")),
    },
    CalendarState: { new: () => calendarState(__calendar_state_new()) },
    SliderState: {
      new: (options) => {
        const settings = options ?? {};
        const min = settings.min ?? 0;
        const max = settings.max ?? 100;
        const step = settings.step ?? 1;
        const scale = String(settings.scale ?? "linear");
        for (const [name, value] of [["min", min], ["max", max], ["step", step]]) {
          if (typeof value !== "number" || !Number.isFinite(value)) {
            throw new TypeError("SliderState.new " + name + " must be a finite number");
          }
        }"##);
}

proof fn lemma_part_64()
    ensures
        prelude::binds_nothing(PART_64@),
{
    reveal_strlit(r##"
        if (max <= min) throw new TypeError("SliderState.new needs a max greater than its min");
        if (step <= 0) throw new TypeError("SliderState.new step must be greater than 0");
        if (!["linear", "logarithmic"].includes(scale)) {
          throw new TypeError("SliderState.new scale must be linear or logarithmic");
        }
        if (scale === "logarithmic" && min <= 0) {
          throw new TypeError("SliderState.new with a logarithmic scale needs a min greater than 0");
        }
        return sliderState(
          __slider_state_new(
            min,
            max,
            step,
            scale,
            sliderValues(settings.value ?? min, "SliderState.new value"),
          ),
        );
      },
    },
    Slider: { new: (state) => element(__slider_element(state.__handle)) },
    SliderTrack: { new: (state) => element(__slider_track_element(state.__handle)) },
    SliderIndicator: { new: (state) => element(__slider_indicator_element(state.__handle)) },
    SliderThumb: { new: (state) => element(__slider_thumb_element(state.__handle)) },
    OtpState: {
      new: (length, options) => {
        if (!Number.isInteger(length) || length < 1 || length > 64) {
          throw new TypeError("OtpState.new(length) expects a whole number between 1 and 64");
        }
        const settings = options ?? {};
        return otpState(
          __otp_state_new(length, settings.value ?? null, Boolean(settings.masked)),
        );
      },
    },
    OtpInput: { new: (state) => element(__otp_element(state.__handle)) },
    DockArea: {
      new: (id, options) => {
        const version = options?.version;
        if (version !== undefined && version !== null && (!Number.isSafeInteger(version) || version < 0)) {
          throw new TypeError("DockArea.new(id, options) version expects a whole, non-negative safe integer");
        }
        return dockArea(__dock_area_new(String(id), version ?? null));
      },
      register_panel: (name, Class) => {
        if (typeof name !== "string" || name.length === 0) {
          throw new TypeError(
            "DockArea.register_panel(name, Class) needs the name the panel is added under",
          );
        }
        if (typeof Class !== "function" || !(Class.prototype instanceof View)) {
          throw new TypeError(
            "DockArea.register_panel(name, Class) expects the View subclass the panel is rebuilt from",
          );
        }"##);
}

proof fn lemma_part_65()
    ensures
        prelude::binds_nothing(PART_65@),
{
    reveal_strlit(r##"
        return __dock_register_panel(name, Class);
      },
    },
    dock_area: dockAreaElement,
    dock_content: () => element(__dock_content()),
  };
})();"##);
}

/// The methods that the prelude defines by hand, in the order in which it does.
pub open spec fn owned_methods() -> Set<Seq<char>> {
    set![
        "child"@,
        "children"@,
        "track_focus"@,
        "track_scroll"@,
        "content_focus_handle"@,
        "transition"@,
        "spring"@,
        "axis"@,
        "mode"@,
        "scroll_size"@,
        "anchor"@,
        "frame_budget"@,
        "mouse_button"@,
        "size_range"@,
        "map"@,
        "when"@,
        "select_tab"@,
        "close_panel"@,
        "toggle_zoom"@,
        "drag_tab"@,
        "drop_tab"@,
        "toggle_dock"@,
        "resize_dock"@,
        "move_tile"@,
        "resize_tile"@,
        "raise_tile"@,
        "toggle_tile_zoom"@,
        "close_tile"@,
    ]
}

/// The methods that the prelude takes from a function which makes them.
pub open spec fn made_methods() -> Set<Seq<char>> {
    set![
        "content"@,
        "trigger"@,
        "input"@,
        "decrement_button"@,
        "increment_button"@,
        "image"@,
        "fallback"@,
        "header"@,
        "footer"@,
        "panel"@,
        "hover"@,
        "active"@,
        "focus"@,
        "range_style"@,
        "cell_style"@,
        "cell_active_style"@,
        "caret_style"@,
        "open_delay"@,
        "close_delay"@,
    ]
}

spec fn owned_0() -> Set<Seq<char>> {
    Set::empty()
}

spec fn made_0() -> Set<Seq<char>> {
    Set::empty()
}

spec fn owned_1() -> Set<Seq<char>> {
    owned_0().insert("child"@).insert("children"@)
}

spec fn made_1() -> Set<Seq<char>> {
    made_0().insert("content"@).insert("trigger"@).insert("input"@).insert("decrement_button"@).insert("increment_button"@).insert("image"@)
}

spec fn owned_2() -> Set<Seq<char>> {
    owned_1().insert("track_focus"@).insert("track_scroll"@).insert("content_focus_handle"@)
}

spec fn made_2() -> Set<Seq<char>> {
    made_1().insert("fallback"@).insert("header"@).insert("footer"@).insert("panel"@).insert("hover"@)
}

spec fn owned_3() -> Set<Seq<char>> {
    owned_2().insert("transition"@).insert("spring"@)
}

spec fn made_3() -> Set<Seq<char>> {
    made_2().insert("active"@).insert("focus"@).insert("range_style"@).insert("cell_style"@).insert("cell_active_style"@).insert("caret_style"@)
}

spec fn owned_4() -> Set<Seq<char>> {
    owned_3().insert("axis"@).insert("mode"@).insert("scroll_size"@).insert("anchor"@).insert("frame_budget"@).insert("mouse_button"@)
}

spec fn made_4() -> Set<Seq<char>> {
    made_3().insert("open_delay"@).insert("close_delay"@)
}

spec fn owned_5() -> Set<Seq<char>> {
    owned_4().insert("size_range"@).insert("map"@).insert("when"@).insert("select_tab"@).insert("close_panel"@).insert("toggle_zoom"@).insert("drag_tab"@).insert("drop_tab"@)
}

spec fn made_5() -> Set<Seq<char>> {
    made_4()
}

spec fn owned_6() -> Set<Seq<char>> {
    owned_5().insert("toggle_dock"@).insert("resize_dock"@).insert("move_tile"@).insert("resize_tile"@).insert("raise_tile"@).insert("toggle_tile_zoom"@).insert("close_tile"@)
}

spec fn made_6() -> Set<Seq<char>> {
    made_5()
}

proof fn lemma_text_0()
    ensures
        prelude::accounts_for(text_0(), text_0(), owned_0(), made_0()),
{
    lemma_part_1();
    reveal_strlit("\n  ");
    reveal_strlit("for (const name of __behaviorNames) define(name);");
    reveal(text_0);
    let line = "\n  "@ + DISPATCH@;
    let text = text_0();
    assert forall|at: int| 0 <= at < text.len() && #[trigger] text[at] == '\n' implies
        prelude::other_line(text, at) by {
        if at < PART_1@.len() {
            assert(PART_1@[at] == '\n');
            assert(prelude::other_line(PART_1@, at));
        } else {
            assert(text[at] == line[at - PART_1@.len()]);
            assert(text[PART_1@.len() as int + 3] == 'f');
        }
    }
    prelude::lemma_opening(text);
}

proof fn lemma_text_1()
    ensures
        prelude::accounts_for(text_1(), text_0(), owned_1(), made_1()),
{
    lemma_text_0();
    reveal(text_1);
    let text = text_0();
    let owned = owned_0();
    let made = made_0();
    lemma_part_2();
    lemma_child_is_name();
    prelude::lemma_defined_method(text, PART_2@, "child"@, text_0(), owned, made);
    let owned = owned.insert("child"@);
    let text = text + PART_2@ + prelude::method_text("child"@, "function"@);
    lemma_part_3();
    lemma_children_is_name();
    prelude::lemma_defined_method(text, PART_3@, "children"@, text_0(), owned, made);
    let owned = owned.insert("children"@);
    let text = text + PART_3@ + prelude::method_text("children"@, "function"@);
    lemma_part_4();
    lemma_content_is_name();
    prelude::lemma_made_method(text, PART_4@, "content"@, "slot"@, text_0(), owned, made);
    let made = made.insert("content"@);
    let text = text + PART_4@ + prelude::method_text("content"@, "slot"@);
    lemma_part_5();
    lemma_trigger_is_name();
    prelude::lemma_made_method(text, PART_5@, "trigger"@, "slot"@, text_0(), owned, made);
    let made = made.insert("trigger"@);
    let text = text + PART_5@ + prelude::method_text("trigger"@, "slot"@);
    lemma_part_6();
    lemma_input_is_name();
    prelude::lemma_made_method(text, PART_6@, "input"@, "slot"@, text_0(), owned, made);
    let made = made.insert("input"@);
    let text = text + PART_6@ + prelude::method_text("input"@, "slot"@);
    lemma_part_7();
    lemma_decrement_button_is_name();
    prelude::lemma_made_method(text, PART_7@, "decrement_button"@, "slot"@, text_0(), owned, made);
    let made = made.insert("decrement_button"@);
    let text = text + PART_7@ + prelude::method_text("decrement_button"@, "slot"@);
    lemma_part_8();
    lemma_increment_button_is_name();
    prelude::lemma_made_method(text, PART_8@, "increment_button"@, "slot"@, text_0(), owned, made);
    let made = made.insert("increment_button"@);
    let text = text + PART_8@ + prelude::method_text("increment_button"@, "slot"@);
    lemma_part_9();
    lemma_image_is_name();
    prelude::lemma_made_method(text, PART_9@, "image"@, "slot"@, text_0(), owned, made);
    let made = made.insert("image"@);
    let text = text + PART_9@ + prelude::method_text("image"@, "slot"@);
}

proof fn lemma_text_2()
    ensures
        prelude::accounts_for(text_2(), text_0(), owned_2(), made_2()),
{
    lemma_text_1();
    reveal(text_2);
    let text = text_1();
    let owned = owned_1();
    let made = made_1();
    lemma_part_10();
    lemma_fallback_is_name();
    prelude::lemma_made_method(text, PART_10@, "fallback"@, "slot"@, text_0(), owned, made);
    let made = made.insert("fallback"@);
    let text = text + PART_10@ + prelude::method_text("fallback"@, "slot"@);
    lemma_part_11();
    lemma_header_is_name();
    prelude::lemma_made_method(text, PART_11@, "header"@, "slot"@, text_0(), owned, made);
    let made = made.insert("header"@);
    let text = text + PART_11@ + prelude::method_text("header"@, "slot"@);
    lemma_part_12();
    lemma_footer_is_name();
    prelude::lemma_made_method(text, PART_12@, "footer"@, "slot"@, text_0(), owned, made);
    let made = made.insert("footer"@);
    let text = text + PART_12@ + prelude::method_text("footer"@, "slot"@);
    lemma_part_13();
    lemma_panel_is_name();
    prelude::lemma_made_method(text, PART_13@, "panel"@, "slot"@, text_0(), owned, made);
    let made = made.insert("panel"@);
    let text = text + PART_13@ + prelude::method_text("panel"@, "slot"@);
    lemma_part_14();
    lemma_track_focus_is_name();
    prelude::lemma_defined_method(text, PART_14@, "track_focus"@, text_0(), owned, made);
    let owned = owned.insert("track_focus"@);
    let text = text + PART_14@ + prelude::method_text("track_focus"@, "function"@);
    lemma_part_15();
    lemma_track_scroll_is_name();
    prelude::lemma_defined_method(text, PART_15@, "track_scroll"@, text_0(), owned, made);
    let owned = owned.insert("track_scroll"@);
    let text = text + PART_15@ + prelude::method_text("track_scroll"@, "function"@);
    lemma_part_16();
    lemma_content_focus_handle_is_name();
    prelude::lemma_defined_method(text, PART_16@, "content_focus_handle"@, text_0(), owned, made);
    let owned = owned.insert("content_focus_handle"@);
    let text = text + PART_16@ + prelude::method_text("content_focus_handle"@, "function"@);
    lemma_part_17();
    lemma_hover_is_name();
    prelude::lemma_made_method(text, PART_17@, "hover"@, "state"@, text_0(), owned, made);
    let made = made.insert("hover"@);
    let text = text + PART_17@ + prelude::method_text("hover"@, "state"@);
}

proof fn lemma_text_3()
    ensures
        prelude::accounts_for(text_3(), text_0(), owned_3(), made_3()),
{
    lemma_text_2();
    reveal(text_3);
    let text = text_2();
    let owned = owned_2();
    let made = made_2();
    lemma_part_18();
    lemma_active_is_name();
    prelude::lemma_made_method(text, PART_18@, "active"@, "state"@, text_0(), owned, made);
    let made = made.insert("active"@);
    let text = text + PART_18@ + prelude::method_text("active"@, "state"@);
    lemma_part_19();
    lemma_focus_is_name();
    prelude::lemma_made_method(text, PART_19@, "focus"@, "state"@, text_0(), owned, made);
    let made = made.insert("focus"@);
    let text = text + PART_19@ + prelude::method_text("focus"@, "state"@);
    lemma_part_20();
    lemma_range_style_is_name();
    prelude::lemma_made_method(text, PART_20@, "range_style"@, "state"@, text_0(), owned, made);
    let made = made.insert("range_style"@);
    let text = text + PART_20@ + prelude::method_text("range_style"@, "state"@);
    lemma_part_21();
    lemma_cell_style_is_name();
    prelude::lemma_made_method(text, PART_21@, "cell_style"@, "state"@, text_0(), owned, made);
    let made = made.insert("cell_style"@);
    let text = text + PART_21@ + prelude::method_text("cell_style"@, "state"@);
    lemma_part_22();
    lemma_cell_active_style_is_name();
    prelude::lemma_made_method(text, PART_22@, "cell_active_style"@, "state"@, text_0(), owned, made);
    let made = made.insert("cell_active_style"@);
    let text = text + PART_22@ + prelude::method_text("cell_active_style"@, "state"@);
    lemma_part_23();
    lemma_caret_style_is_name();
    prelude::lemma_made_method(text, PART_23@, "caret_style"@, "state"@, text_0(), owned, made);
    let made = made.insert("caret_style"@);
    let text = text + PART_23@ + prelude::method_text("caret_style"@, "state"@);
    lemma_part_24();
    prelude::lemma_part(text, PART_24@, text_0(), owned, made);
    let text = text + PART_24@;
    lemma_part_25();
    lemma_transition_is_name();
    prelude::lemma_defined_method(text, PART_25@, "transition"@, text_0(), owned, made);
    let owned = owned.insert("transition"@);
    let text = text + PART_25@ + prelude::method_text("transition"@, "function"@);
    lemma_part_26();
    lemma_spring_is_name();
    prelude::lemma_defined_method(text, PART_26@, "spring"@, text_0(), owned, made);
    let owned = owned.insert("spring"@);
    let text = text + PART_26@ + prelude::method_text("spring"@, "function"@);
}

proof fn lemma_text_4()
    ensures
        prelude::accounts_for(text_4(), text_0(), owned_4(), made_4()),
{
    lemma_text_3();
    reveal(text_4);
    let text = text_3();
    let owned = owned_3();
    let made = made_3();
    lemma_part_27();
    lemma_axis_is_name();
    prelude::lemma_defined_method(text, PART_27@, "axis"@, text_0(), owned, made);
    let owned = owned.insert("axis"@);
    let text = text + PART_27@ + prelude::method_text("axis"@, "function"@);
    lemma_part_28();
    lemma_mode_is_name();
    prelude::lemma_defined_method(text, PART_28@, "mode"@, text_0(), owned, made);
    let owned = owned.insert("mode"@);
    let text = text + PART_28@ + prelude::method_text("mode"@, "function"@);
    lemma_part_29();
    lemma_scroll_size_is_name();
    prelude::lemma_defined_method(text, PART_29@, "scroll_size"@, text_0(), owned, made);
    let owned = owned.insert("scroll_size"@);
    let text = text + PART_29@ + prelude::method_text("scroll_size"@, "function"@);
    lemma_part_30();
    lemma_anchor_is_name();
    prelude::lemma_defined_method(text, PART_30@, "anchor"@, text_0(), owned, made);
    let owned = owned.insert("anchor"@);
    let text = text + PART_30@ + prelude::method_text("anchor"@, "function"@);
    lemma_part_31();
    lemma_frame_budget_is_name();
    prelude::lemma_defined_method(text, PART_31@, "frame_budget"@, text_0(), owned, made);
    let owned = owned.insert("frame_budget"@);
    let text = text + PART_31@ + prelude::method_text("frame_budget"@, "function"@);
    lemma_part_32();
    lemma_mouse_button_is_name();
    prelude::lemma_defined_method(text, PART_32@, "mouse_button"@, text_0(), owned, made);
    let owned = owned.insert("mouse_button"@);
    let text = text + PART_32@ + prelude::method_text("mouse_button"@, "function"@);
    lemma_part_33();
    lemma_open_delay_is_name();
    prelude::lemma_made_method(text, PART_33@, "open_delay"@, "delay"@, text_0(), owned, made);
    let made = made.insert("open_delay"@);
    let text = text + PART_33@ + prelude::method_text("open_delay"@, "delay"@);
    lemma_part_34();
    lemma_close_delay_is_name();
    prelude::lemma_made_method(text, PART_34@, "close_delay"@, "delay"@, text_0(), owned, made);
    let made = made.insert("close_delay"@);
    let text = text + PART_34@ + prelude::method_text("close_delay"@, "delay"@);
}

proof fn lemma_text_5()
    ensures
        prelude::accounts_for(text_5(), text_0(), owned_5(), made_5()),
{
    lemma_text_4();
    reveal(text_5);
    let text = text_4();
    let owned = owned_4();
    let made = made_4();
    lemma_part_35();
    lemma_size_range_is_name();
    prelude::lemma_defined_method(text, PART_35@, "size_range"@, text_0(), owned, made);
    let owned = owned.insert("size_range"@);
    let text = text + PART_35@ + prelude::method_text("size_range"@, "function"@);
    lemma_part_36();
    prelude::lemma_part(text, PART_36@, text_0(), owned, made);
    let text = text + PART_36@;
    lemma_part_37();
    prelude::lemma_part(text, PART_37@, text_0(), owned, made);
    let text = text + PART_37@;
    lemma_part_38();
    lemma_map_is_name();
    prelude::lemma_defined_method(text, PART_38@, "map"@, text_0(), owned, made);
    let owned = owned.insert("map"@);
    let text = text + PART_38@ + prelude::method_text("map"@, "function"@);
    lemma_part_39();
    lemma_when_is_name();
    prelude::lemma_defined_method(text, PART_39@, "when"@, text_0(), owned, made);
    let owned = owned.insert("when"@);
    let text = text + PART_39@ + prelude::method_text("when"@, "function"@);
    lemma_part_40();
    prelude::lemma_part(text, PART_40@, text_0(), owned, made);
    let text = text + PART_40@;
    lemma_part_41();
    prelude::lemma_part(text, PART_41@, text_0(), owned, made);
    let text = text + PART_41@;
    lemma_part_42();
    prelude::lemma_part(text, PART_42@, text_0(), owned, made);
    let text = text + PART_42@;
    lemma_part_43();
    lemma_select_tab_is_name();
    prelude::lemma_defined_method(text, PART_43@, "select_tab"@, text_0(), owned, made);
    let owned = owned.insert("select_tab"@);
    let text = text + PART_43@ + prelude::method_text("select_tab"@, "function"@);
    lemma_part_44();
    lemma_close_panel_is_name();
    prelude::lemma_defined_method(text, PART_44@, "close_panel"@, text_0(), owned, made);
    let owned = owned.insert("close_panel"@);
    let text = text + PART_44@ + prelude::method_text("close_panel"@, "function"@);
    lemma_part_45();
    lemma_toggle_zoom_is_name();
    prelude::lemma_defined_method(text, PART_45@, "toggle_zoom"@, text_0(), owned, made);
    let owned = owned.insert("toggle_zoom"@);
    let text = text + PART_45@ + prelude::method_text("toggle_zoom"@, "function"@);
    lemma_part_46();
    lemma_drag_tab_is_name();
    prelude::lemma_defined_method(text, PART_46@, "drag_tab"@, text_0(), owned, made);
    let owned = owned.insert("drag_tab"@);
    let text = text + PART_46@ + prelude::method_text("drag_tab"@, "function"@);
    lemma_part_47();
    lemma_drop_tab_is_name();
    prelude::lemma_defined_method(text, PART_47@, "drop_tab"@, text_0(), owned, made);
    let owned = owned.insert("drop_tab"@);
    let text = text + PART_47@ + prelude::method_text("drop_tab"@, "function"@);
}

proof fn lemma_text_6()
    ensures
        prelude::accounts_for(text_6(), text_0(), owned_6(), made_6()),
{
    lemma_text_5();
    reveal(text_6);
    let text = text_5();
    let owned = owned_5();
    let made = made_5();
    lemma_part_48();
    lemma_toggle_dock_is_name();
    prelude::lemma_defined_method(text, PART_48@, "toggle_dock"@, text_0(), owned, made);
    let owned = owned.insert("toggle_dock"@);
    let text = text + PART_48@ + prelude::method_text("toggle_dock"@, "function"@);
    lemma_part_49();
    lemma_resize_dock_is_name();
    prelude::lemma_defined_method(text, PART_49@, "resize_dock"@, text_0(), owned, made);
    let owned = owned.insert("resize_dock"@);
    let text = text + PART_49@ + prelude::method_text("resize_dock"@, "function"@);
    lemma_part_50();
    lemma_move_tile_is_name();
    prelude::lemma_defined_method(text, PART_50@, "move_tile"@, text_0(), owned, made);
    let owned = owned.insert("move_tile"@);
    let text = text + PART_50@ + prelude::method_text("move_tile"@, "function"@);
    lemma_part_51();
    lemma_resize_tile_is_name();
    prelude::lemma_defined_method(text, PART_51@, "resize_tile"@, text_0(), owned, made);
    let owned = owned.insert("resize_tile"@);
    let text = text + PART_51@ + prelude::method_text("resize_tile"@, "function"@);
    lemma_part_52();
    lemma_raise_tile_is_name();
    prelude::lemma_defined_method(text, PART_52@, "raise_tile"@, text_0(), owned, made);
    let owned = owned.insert("raise_tile"@);
    let text = text + PART_52@ + prelude::method_text("raise_tile"@, "function"@);
    lemma_part_53();
    lemma_toggle_tile_zoom_is_name();
    prelude::lemma_defined_method(text, PART_53@, "toggle_tile_zoom"@, text_0(), owned, made);
    let owned = owned.insert("toggle_tile_zoom"@);
    let text = text + PART_53@ + prelude::method_text("toggle_tile_zoom"@, "function"@);
    lemma_part_54();
    lemma_close_tile_is_name();
    prelude::lemma_defined_method(text, PART_54@, "close_tile"@, text_0(), owned, made);
    let owned = owned.insert("close_tile"@);
    let text = text + PART_54@ + prelude::method_text("close_tile"@, "function"@);
    lemma_part_55();
    prelude::lemma_part(text, PART_55@, text_0(), owned, made);
    let text = text + PART_55@;
    lemma_part_56();
    prelude::lemma_part(text, PART_56@, text_0(), owned, made);
    let text = text + PART_56@;
    lemma_part_57();
    prelude::lemma_part(text, PART_57@, text_0(), owned, made);
    let text = text + PART_57@;
    lemma_part_58();
    prelude::lemma_part(text, PART_58@, text_0(), owned, made);
    let text = text + PART_58@;
    lemma_part_59();
    prelude::lemma_part(text, PART_59@, text_0(), owned, made);
    let text = text + PART_59@;
    lemma_part_60();
    prelude::lemma_part(text, PART_60@, text_0(), owned, made);
    let text = text + PART_60@;
    lemma_part_61();
    prelude::lemma_part(text, PART_61@, text_0(), owned, made);
    let text = text + PART_61@;
    lemma_part_62();
    prelude::lemma_part(text, PART_62@, text_0(), owned, made);
    let text = text + PART_62@;
    lemma_part_63();
    prelude::lemma_part(text, PART_63@, text_0(), owned, made);
    let text = text + PART_63@;
    lemma_part_64();
    prelude::lemma_part(text, PART_64@, text_0(), owned, made);
    let text = text + PART_64@;
    lemma_part_65();
    prelude::lemma_part(text, PART_65@, text_0(), owned, made);
    let text = text + PART_65@;
}

proof fn lemma_child_is_name()
    ensures
        prelude::is_name("child"@),
{
    reveal_strlit("child");
}

proof fn lemma_children_is_name()
    ensures
        prelude::is_name("children"@),
{
    reveal_strlit("children");
}

proof fn lemma_content_is_name()
    ensures
        prelude::is_name("content"@),
{
    reveal_strlit("content");
}

proof fn lemma_trigger_is_name()
    ensures
        prelude::is_name("trigger"@),
{
    reveal_strlit("trigger");
}

proof fn lemma_input_is_name()
    ensures
        prelude::is_name("input"@),
{
    reveal_strlit("input");
}

proof fn lemma_decrement_button_is_name()
    ensures
        prelude::is_name("decrement_button"@),
{
    reveal_strlit("decrement_button");
}

proof fn lemma_increment_button_is_name()
    ensures
        prelude::is_name("increment_button"@),
{
    reveal_strlit("increment_button");
}

proof fn lemma_image_is_name()
    ensures
        prelude::is_name("image"@),
{
    reveal_strlit("image");
}

proof fn lemma_fallback_is_name()
    ensures
        prelude::is_name("fallback"@),
{
    reveal_strlit("fallback");
}

proof fn lemma_header_is_name()
    ensures
        prelude::is_name("header"@),
{
    reveal_strlit("header");
}

proof fn lemma_footer_is_name()
    ensures
        prelude::is_name("footer"@),
{
    reveal_strlit("footer");
}

proof fn lemma_panel_is_name()
    ensures
        prelude::is_name("panel"@),
{
    reveal_strlit("panel");
}

proof fn lemma_track_focus_is_name()
    ensures
        prelude::is_name("track_focus"@),
{
    reveal_strlit("track_focus");
}

proof fn lemma_track_scroll_is_name()
    ensures
        prelude::is_name("track_scroll"@),
{
    reveal_strlit("track_scroll");
}

proof fn lemma_content_focus_handle_is_name()
    ensures
        prelude::is_name("content_focus_handle"@),
{
    reveal_strlit("content_focus_handle");
}

proof fn lemma_hover_is_name()
    ensures
        prelude::is_name("hover"@),
{
    reveal_strlit("hover");
}

proof fn lemma_active_is_name()
    ensures
        prelude::is_name("active"@),
{
    reveal_strlit("active");
}

proof fn lemma_focus_is_name()
    ensures
        prelude::is_name("focus"@),
{
    reveal_strlit("focus");
}

proof fn lemma_range_style_is_name()
    ensures
        prelude::is_name("range_style"@),
{
    reveal_strlit("range_style");
}

proof fn lemma_cell_style_is_name()
    ensures
        prelude::is_name("cell_style"@),
{
    reveal_strlit("cell_style");
}

proof fn lemma_cell_active_style_is_name()
    ensures
        prelude::is_name("cell_active_style"@),
{
    reveal_strlit("cell_active_style");
}

proof fn lemma_caret_style_is_name()
    ensures
        prelude::is_name("caret_style"@),
{
    reveal_strlit("caret_style");
}

proof fn lemma_transition_is_name()
    ensures
        prelude::is_name("transition"@),
{
    reveal_strlit("transition");
}

proof fn lemma_spring_is_name()
    ensures
        prelude::is_name("spring"@),
{
    reveal_strlit("spring");
}

proof fn lemma_axis_is_name()
    ensures
        prelude::is_name("axis"@),
{
    reveal_strlit("axis");
}

proof fn lemma_mode_is_name()
    ensures
        prelude::is_name("mode"@),
{
    reveal_strlit("mode");
}

proof fn lemma_scroll_size_is_name()
    ensures
        prelude::is_name("scroll_size"@),
{
    reveal_strlit("scroll_size");
}

proof fn lemma_anchor_is_name()
    ensures
        prelude::is_name("anchor"@),
{
    reveal_strlit("anchor");
}

proof fn lemma_frame_budget_is_name()
    ensures
        prelude::is_name("frame_budget"@),
{
    reveal_strlit("frame_budget");
}

proof fn lemma_mouse_button_is_name()
    ensures
        prelude::is_name("mouse_button"@),
{
    reveal_strlit("mouse_button");
}

proof fn lemma_open_delay_is_name()
    ensures
        prelude::is_name("open_delay"@),
{
    reveal_strlit("open_delay");
}

proof fn lemma_close_delay_is_name()
    ensures
        prelude::is_name("close_delay"@),
{
    reveal_strlit("close_delay");
}

proof fn lemma_size_range_is_name()
    ensures
        prelude::is_name("size_range"@),
{
    reveal_strlit("size_range");
}

proof fn lemma_map_is_name()
    ensures
        prelude::is_name("map"@),
{
    reveal_strlit("map");
}

proof fn lemma_when_is_name()
    ensures
        prelude::is_name("when"@),
{
    reveal_strlit("when");
}

proof fn lemma_select_tab_is_name()
    ensures
        prelude::is_name("select_tab"@),
{
    reveal_strlit("select_tab");
}

proof fn lemma_close_panel_is_name()
    ensures
        prelude::is_name("close_panel"@),
{
    reveal_strlit("close_panel");
}

proof fn lemma_toggle_zoom_is_name()
    ensures
        prelude::is_name("toggle_zoom"@),
{
    reveal_strlit("toggle_zoom");
}

proof fn lemma_drag_tab_is_name()
    ensures
        prelude::is_name("drag_tab"@),
{
    reveal_strlit("drag_tab");
}

proof fn lemma_drop_tab_is_name()
    ensures
        prelude::is_name("drop_tab"@),
{
    reveal_strlit("drop_tab");
}

proof fn lemma_toggle_dock_is_name()
    ensures
        prelude::is_name("toggle_dock"@),
{
    reveal_strlit("toggle_dock");
}

proof fn lemma_resize_dock_is_name()
    ensures
        prelude::is_name("resize_dock"@),
{
    reveal_strlit("resize_dock");
}

proof fn lemma_move_tile_is_name()
    ensures
        prelude::is_name("move_tile"@),
{
    reveal_strlit("move_tile");
}

proof fn lemma_resize_tile_is_name()
    ensures
        prelude::is_name("resize_tile"@),
{
    reveal_strlit("resize_tile");
}

proof fn lemma_raise_tile_is_name()
    ensures
        prelude::is_name("raise_tile"@),
{
    reveal_strlit("raise_tile");
}

proof fn lemma_toggle_tile_zoom_is_name()
    ensures
        prelude::is_name("toggle_tile_zoom"@),
{
    reveal_strlit("toggle_tile_zoom");
}

proof fn lemma_close_tile_is_name()
    ensures
        prelude::is_name("close_tile"@),
{
    reveal_strlit("close_tile");
}

/// No method is both defined by hand and taken from a function that makes it.
proof fn lemma_owned_or_made()
    ensures
        forall|name: Seq<char>| #[trigger]
            made_methods().contains(name) ==> !owned_methods().contains(name),
{
    reveal_strlit("child");
    assert("child"@.len() == 5);
    reveal_strlit("children");
    assert("children"@.len() == 8);
    reveal_strlit("content");
    assert("content"@.len() == 7);
    reveal_strlit("trigger");
    assert("trigger"@.len() == 7);
    reveal_strlit("input");
    assert("input"@.len() == 5);
    reveal_strlit("decrement_button");
    assert("decrement_button"@.len() == 16);
    reveal_strlit("increment_button");
    assert("increment_button"@.len() == 16);
    reveal_strlit("image");
    assert("image"@.len() == 5);
    reveal_strlit("fallback");
    assert("fallback"@.len() == 8);
    reveal_strlit("header");
    assert("header"@.len() == 6);
    reveal_strlit("footer");
    assert("footer"@.len() == 6);
    reveal_strlit("panel");
    assert("panel"@.len() == 5);
    reveal_strlit("track_focus");
    assert("track_focus"@.len() == 11);
    reveal_strlit("track_scroll");
    assert("track_scroll"@.len() == 12);
    reveal_strlit("content_focus_handle");
    assert("content_focus_handle"@.len() == 20);
    reveal_strlit("hover");
    assert("hover"@.len() == 5);
    reveal_strlit("active");
    assert("active"@.len() == 6);
    reveal_strlit("focus");
    assert("focus"@.len() == 5);
    reveal_strlit("range_style");
    assert("range_style"@.len() == 11);
    reveal_strlit("cell_style");
    assert("cell_style"@.len() == 10);
    reveal_strlit("cell_active_style");
    assert("cell_active_style"@.len() == 17);
    reveal_strlit("caret_style");
    assert("caret_style"@.len() == 11);
    reveal_strlit("transition");
    assert("transition"@.len() == 10);
    reveal_strlit("spring");
    assert("spring"@.len() == 6);
    reveal_strlit("axis");
    assert("axis"@.len() == 4);
    reveal_strlit("mode");
    assert("mode"@.len() == 4);
    reveal_strlit("scroll_size");
    assert("scroll_size"@.len() == 11);
    reveal_strlit("anchor");
    assert("anchor"@.len() == 6);
    reveal_strlit("frame_budget");
    assert("frame_budget"@.len() == 12);
    reveal_strlit("mouse_button");
    assert("mouse_button"@.len() == 12);
    reveal_strlit("open_delay");
    assert("open_delay"@.len() == 10);
    reveal_strlit("close_delay");
    assert("close_delay"@.len() == 11);
    reveal_strlit("size_range");
    assert("size_range"@.len() == 10);
    reveal_strlit("map");
    assert("map"@.len() == 3);
    reveal_strlit("when");
    assert("when"@.len() == 4);
    reveal_strlit("select_tab");
    assert("select_tab"@.len() == 10);
    reveal_strlit("close_panel");
    assert("close_panel"@.len() == 11);
    reveal_strlit("toggle_zoom");
    assert("toggle_zoom"@.len() == 11);
    reveal_strlit("drag_tab");
    assert("drag_tab"@.len() == 8);
    reveal_strlit("drop_tab");
    assert("drop_tab"@.len() == 8);
    reveal_strlit("toggle_dock");
    assert("toggle_dock"@.len() == 11);
    reveal_strlit("resize_dock");
    assert("resize_dock"@.len() == 11);
    reveal_strlit("move_tile");
    assert("move_tile"@.len() == 9);
    reveal_strlit("resize_tile");
    assert("resize_tile"@.len() == 11);
    reveal_strlit("raise_tile");
    assert("raise_tile"@.len() == 10);
    reveal_strlit("toggle_tile_zoom");
    assert("toggle_tile_zoom"@.len() == 16);
    reveal_strlit("close_tile");
    assert("close_tile"@.len() == 10);
    assert("input"@[0] != "child"@[0]);
    assert("decrement_button"@[0] != "toggle_tile_zoom"@[0]);
    assert("increment_button"@[0] != "toggle_tile_zoom"@[0]);
    assert("image"@[0] != "child"@[0]);
    assert("fallback"@[0] != "children"@[0]);
    assert("fallback"@[0] != "drag_tab"@[0]);
    assert("fallback"@[0] != "drop_tab"@[0]);
    assert("header"@[0] != "spring"@[0]);
    assert("header"@[0] != "anchor"@[0]);
    assert("footer"@[0] != "spring"@[0]);
    assert("footer"@[0] != "anchor"@[0]);
    assert("panel"@[0] != "child"@[0]);
    assert("hover"@[0] != "child"@[0]);
    assert("active"@[0] != "spring"@[0]);
    assert("active"@[1] != "anchor"@[1]);
    assert("focus"@[0] != "child"@[0]);
    assert("range_style"@[0] != "track_focus"@[0]);
    assert("range_style"@[0] != "scroll_size"@[0]);
    assert("range_style"@[0] != "close_panel"@[0]);
    assert("range_style"@[0] != "toggle_zoom"@[0]);
    assert("range_style"@[0] != "toggle_dock"@[0]);
    assert("range_style"@[1] != "resize_dock"@[1]);
    assert("range_style"@[1] != "resize_tile"@[1]);
    assert("cell_style"@[0] != "transition"@[0]);
    assert("cell_style"@[0] != "size_range"@[0]);
    assert("cell_style"@[0] != "select_tab"@[0]);
    assert("cell_style"@[0] != "raise_tile"@[0]);
    assert("cell_style"@[1] != "close_tile"@[1]);
    assert("caret_style"@[0] != "track_focus"@[0]);
    assert("caret_style"@[0] != "scroll_size"@[0]);
    assert("caret_style"@[1] != "close_panel"@[1]);
    assert("caret_style"@[0] != "toggle_zoom"@[0]);
    assert("caret_style"@[0] != "toggle_dock"@[0]);
    assert("caret_style"@[0] != "resize_dock"@[0]);
    assert("caret_style"@[0] != "resize_tile"@[0]);
    assert("open_delay"@[0] != "transition"@[0]);
    assert("open_delay"@[0] != "size_range"@[0]);
    assert("open_delay"@[0] != "select_tab"@[0]);
    assert("open_delay"@[0] != "raise_tile"@[0]);
    assert("open_delay"@[0] != "close_tile"@[0]);
    assert("close_delay"@[0] != "track_focus"@[0]);
    assert("close_delay"@[0] != "scroll_size"@[0]);
    assert("close_delay"@[6] != "close_panel"@[6]);
    assert("close_delay"@[0] != "toggle_zoom"@[0]);
    assert("close_delay"@[0] != "toggle_dock"@[0]);
    assert("close_delay"@[0] != "resize_dock"@[0]);
    assert("close_delay"@[0] != "resize_tile"@[0]);
    assert(!owned_methods().contains("content"@));
    assert(!owned_methods().contains("trigger"@));
    assert(!owned_methods().contains("input"@));
    assert(!owned_methods().contains("decrement_button"@));
    assert(!owned_methods().contains("increment_button"@));
    assert(!owned_methods().contains("image"@));
    assert(!owned_methods().contains("fallback"@));
    assert(!owned_methods().contains("header"@));
    assert(!owned_methods().contains("footer"@));
    assert(!owned_methods().contains("panel"@));
    assert(!owned_methods().contains("hover"@));
    assert(!owned_methods().contains("active"@));
    assert(!owned_methods().contains("focus"@));
    assert(!owned_methods().contains("range_style"@));
    assert(!owned_methods().contains("cell_style"@));
    assert(!owned_methods().contains("cell_active_style"@));
    assert(!owned_methods().contains("caret_style"@));
    assert(!owned_methods().contains("open_delay"@));
    assert(!owned_methods().contains("close_delay"@));
}

/// Where the methods are installed that have no definition of their own.
pub open spec fn installs_at() -> Option<int> {
    text::find_from(prelude_text(), "for (const name of __behaviorNames) define(name);"@, 0)
}

/// The methods that the prelude defines by hand, after the place where it installs those without a
/// definition, are these and no others.
pub proof fn law_the_prelude_owns_the_methods_it_defines()
    ensures
        installs_at() is Some,
        forall|name: Seq<char>| #[trigger]
            prelude::defined_from(prelude_text(), installs_at()->Some_0, name)
                <==> owned_methods().contains(name),
{
    let all = prelude_text();
    let line = "for (const name of __behaviorNames) define(name);"@;
    lemma_text_6();
    assert(owned_6() =~= owned_methods());
    reveal_strlit("\n");
    prelude::lemma_begins(text_6(), text_0(), owned_6(), made_6());
    reveal(text_0);
    let place = PART_1@.len() as int + "\n  "@.len() as int;
    assert(text_0().subrange(place, text_0().len() as int) =~= line);
    assert(all.subrange(place, place + line.len()) =~= line) by {
        assert forall|i: int| 0 <= i < line.len() implies all[place + i] == #[trigger] line[i] by {
            assert(text_0().subrange(place, text_0().len() as int)[i] == text_0()[place + i]);
            assert(all[place + i] == text_0()[place + i]);
        }
    }
    text::lemma_some_first(all, line, 0, place);
    let start = installs_at()->Some_0;
    assert(text::first_from(all, line, 0, start));
    assert(start <= place) by {
        if place < start {
            assert(!text::occurs_at(all, line, place));
        }
    }
    assert forall|name: Seq<char>| #[trigger] prelude::defined_from(all, start, name)
        <==> owned_methods().contains(name) by {
        prelude::lemma_all_accounted_for(
            text_6(),
            "\n"@,
            start,
            text_0(),
            owned_6(),
            made_6(),
            name,
        );
    }
}

/// The prelude defines by hand every method whose words it checks.
pub proof fn law_the_prelude_owns_the_names_it_checks()
    ensures
        installs_at() is Some,
        prelude::defined_from(prelude_text(), installs_at()->Some_0, "axis"@),
        prelude::defined_from(prelude_text(), installs_at()->Some_0, "mode"@),
        prelude::defined_from(prelude_text(), installs_at()->Some_0, "anchor"@),
        prelude::defined_from(prelude_text(), installs_at()->Some_0, "mouse_button"@),
{
    law_the_prelude_owns_the_methods_it_defines();
    assert(owned_methods().contains("axis"@));
    assert(owned_methods().contains("mode"@));
    assert(owned_methods().contains("anchor"@));
    assert(owned_methods().contains("mouse_button"@));
}

/// A method that the prelude binds in another way, to what `slot`, `state` or `delay` makes of it, is
/// none of those which it defines by hand.
pub proof fn law_a_made_method_is_not_owned(name: Seq<char>, maker: Seq<char>, at: int)
    requires
        prelude::makes_methods(maker),
        text::occurs_at(prelude_text(), prelude::binding(name, maker), at),
    ensures
        installs_at() is Some,
        !prelude::defined_from(prelude_text(), installs_at()->Some_0, name),
{
    law_the_prelude_owns_the_methods_it_defines();
    lemma_text_6();
    lemma_owned_or_made();
    reveal_strlit("\n");
    assert(made_6() =~= made_methods());
    if prelude::is_name(name) {
        prelude::lemma_made_accounted_for(
            text_6(),
            "\n"@,
            text_0(),
            owned_6(),
            made_6(),
            name,
            maker,
            at,
        );
    }
}

/// None of the methods that the prelude takes from a function which makes them is defined by hand.
pub proof fn law_no_made_method_is_owned(name: Seq<char>)
    requires
        made_methods().contains(name),
    ensures
        installs_at() is Some,
        !prelude::defined_from(prelude_text(), installs_at()->Some_0, name),
{
    law_the_prelude_owns_the_methods_it_defines();
    lemma_owned_or_made();
}

} // verus!
